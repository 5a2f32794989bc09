//! Which files go into an archive: the entries found under an input path,
//! each under its path in the archive, less those that the include and
//! exclude patterns leave out.

use vstd::prelude::*;
use crate::driver::{driver_of_filename, lemma_filename_selects_its_driver, Driver};
use crate::error::Error;
use crate::glob::{matches_any, matches_some};
use crate::paths::{parent_directory, parent_text, relative_path, relative_to};

verus! {

/// What is to be archived, and under which name.
pub struct CreateArchive {
    pub input: String,
    pub name: String,
    pub version: String,
    pub driver: Driver,
    pub platform: Option<String>,
    pub includes: Option<Vec<String>>,
    pub excludes: Option<Vec<String>>,
}

/// One entry that a walk of a directory tree came upon.
pub struct WalkedEntry {
    pub path: String,
    pub is_dir: bool,
}

/// A file of the archive: its path in the archive, then its path on disk.
pub type FileView = (Seq<char>, Seq<char>);

/// The files of a list, each as a pair of texts.
pub open spec fn file_views(files: Seq<(String, String)>) -> Seq<FileView> {
    files.map_values(|f: (String, String)| (f.0@, f.1@))
}

/// Every entry of the walk that is no directory lies under `prefix`.
pub open spec fn all_under(walked: Seq<WalkedEntry>, prefix: Seq<char>) -> bool {
    forall|i: int|
        0 <= i < walked.len() && !(#[trigger] walked[i]).is_dir ==> relative_to(
            walked[i].path@,
            prefix,
        ).is_some()
}

/// Entry `i` is the first of the walk that is no directory and does not lie
/// under `prefix`.
pub open spec fn is_first_outside(walked: Seq<WalkedEntry>, prefix: Seq<char>, i: int) -> bool {
    &&& 0 <= i < walked.len()
    &&& !walked[i].is_dir
    &&& relative_to(walked[i].path@, prefix).is_none()
    &&& all_under(walked.take(i), prefix)
}

/// The entries of the walk that are no directories, in the walk's order, each
/// with its path relative to `prefix`.
pub open spec fn candidates(walked: Seq<WalkedEntry>, prefix: Seq<char>) -> Seq<FileView>
    decreases walked.len(),
{
    if walked.len() == 0 {
        Seq::empty()
    } else {
        let before = candidates(walked.drop_last(), prefix);
        let entry = walked.last();
        if entry.is_dir || relative_to(entry.path@, prefix).is_none() {
            before
        } else {
            before.push((relative_to(entry.path@, prefix).unwrap(), entry.path@))
        }
    }
}

/// Whether the patterns keep a path: with an include list, some pattern of it
/// must match; with an exclude list, none of it may.
pub open spec fn is_kept(
    archive_path: Seq<char>,
    includes: Option<Vec<String>>,
    excludes: Option<Vec<String>>,
) -> bool {
    &&& includes.is_some() ==> matches_some(includes.unwrap()@, archive_path)
    &&& excludes.is_some() ==> !matches_some(excludes.unwrap()@, archive_path)
}

/// The files that the patterns keep, in their order.
pub open spec fn kept(
    files: Seq<FileView>,
    includes: Option<Vec<String>>,
    excludes: Option<Vec<String>>,
) -> Seq<FileView>
    decreases files.len(),
{
    if files.len() == 0 {
        Seq::empty()
    } else {
        let before = kept(files.drop_last(), includes, excludes);
        if is_kept(files.last().0, includes, excludes) {
            before.push(files.last())
        } else {
            before
        }
    }
}

/// Whether the patterns keep `archive_path`.
pub fn keeps(
    archive_path: &str,
    includes: &Option<Vec<String>>,
    excludes: &Option<Vec<String>>,
) -> (r: bool)
    ensures
        r == is_kept(archive_path@, *includes, *excludes),
{
    let included = match includes {
        Some(patterns) => matches_any(patterns, archive_path),
        None => true,
    };
    if !included {
        return false;
    }
    match excludes {
        Some(patterns) => !matches_any(patterns, archive_path),
        None => true,
    }
}

impl CreateArchive {
    /// The name of the archive's file.
    pub open spec fn output_file_text(self) -> Seq<char> {
        let stem = self.name@ + "-"@ + self.version@;
        let stem = match self.platform {
            Some(platform) => stem + "-"@ + platform@,
            None => stem,
        };
        stem + "."@ + self.driver.extension_text()
    }

    /// The prefix that the archive's paths leave out: the input itself where
    /// it is a directory, else the directory that holds it.
    pub open spec fn strip_prefix_text(self, input_is_dir: bool) -> Seq<char> {
        if input_is_dir {
            self.input@
        } else {
            parent_text(self.input@)
        }
    }

    /// The name of the archive's file: name and version, the platform where
    /// there is one, and the format's extension. The name selects the format.
    pub fn get_output_file(&self) -> (result: String)
        ensures
            result@ == self.output_file_text(),
            driver_of_filename(result@) == Some(self.driver),
    {
        let mut result = String::from_str(self.name.as_str());
        result.append("-");
        result.append(self.version.as_str());
        if let Some(platform) = self.platform.as_ref() {
            result.append("-");
            result.append(platform.as_str());
        }
        proof {
            lemma_filename_selects_its_driver(result@, self.driver);
        }
        result.append(".");
        let extension = self.driver.extension();
        result.append(extension.as_str());
        result
    }

    /// The files of the archive, from a walk of the input: every entry that is
    /// no directory, under its path relative to the input, in the walk's
    /// order, where the patterns keep it. Fails on the first entry that does
    /// not lie under the input.
    pub fn build_file_list(&self, input_is_dir: bool, walked: &Vec<WalkedEntry>) -> (result: Result<
        Vec<(String, String)>,
        Error,
    >)
        ensures
            match result {
                Ok(files) => {
                    &&& all_under(walked@, self.strip_prefix_text(input_is_dir))
                    &&& file_views(files@) == kept(
                        candidates(walked@, self.strip_prefix_text(input_is_dir)),
                        self.includes,
                        self.excludes,
                    )
                },
                Err(Error::IoFailure { operation, path }) => {
                    &&& operation@ == "strip prefix"@
                    &&& exists|i: int|
                        #[trigger] is_first_outside(
                            walked@,
                            self.strip_prefix_text(input_is_dir),
                            i,
                        ) && path@ == walked@[i].path@
                },
                Err(_) => false,
            },
    {
        let strip_prefix = if input_is_dir {
            self.input.clone()
        } else {
            parent_directory(self.input.as_str())
        };
        let ghost prefix = self.strip_prefix_text(input_is_dir);
        let mut files: Vec<(String, String)> = Vec::new();
        let ghost mut seen: Seq<FileView> = Seq::empty();
        let mut i: usize = 0;
        while i < walked.len()
            invariant
                i <= walked.len(),
                strip_prefix@ == prefix,
                prefix == self.strip_prefix_text(input_is_dir),
                all_under(walked@.take(i as int), prefix),
                seen == candidates(walked@.take(i as int), prefix),
                file_views(files@) == kept(seen, self.includes, self.excludes),
            decreases walked.len() - i,
        {
            let item = &walked[i];
            proof {
                assert(walked@.take(i + 1).drop_last() =~= walked@.take(i as int));
                assert(walked@.take(i + 1).last() == walked@[i as int]);
            }
            if !item.is_dir {
                match relative_path(item.path.as_str(), strip_prefix.as_str()) {
                    None => {
                        let operation = String::from_str("strip prefix");
                        let path = item.path.clone();
                        assert(is_first_outside(walked@, prefix, i as int) && path@
                            == walked@[i as int].path@);
                        return Err(Error::IoFailure { operation, path });
                    },
                    Some(archive_path) => {
                        let ghost file = (archive_path@, item.path@);
                        proof {
                            assert(seen.push(file).drop_last() =~= seen);
                            seen = seen.push(file);
                        }
                        if keeps(archive_path.as_str(), &self.includes, &self.excludes) {
                            let ghost before = files@;
                            files.push((archive_path, item.path.clone()));
                            proof {
                                assert(file_views(files@) =~= file_views(before).push(file));
                            }
                        }
                    },
                }
            }
            proof {
                let longer = walked@.take(i + 1);
                assert forall|k: int|
                    0 <= k < longer.len() && !(#[trigger] longer[k]).is_dir implies relative_to(
                    longer[k].path@,
                    prefix,
                ).is_some() by {
                    if k < i {
                        assert(walked@.take(i as int)[k] == walked@[k]);
                    }
                }
            }
            i += 1;
        }
        proof {
            assert(walked@.take(i as int) =~= walked@);
        }
        Ok(files)
    }
}

/// An include list without patterns keeps no file.
pub proof fn lemma_empty_includes_keep_nothing(
    files: Seq<FileView>,
    includes: Vec<String>,
    excludes: Option<Vec<String>>,
)
    requires
        includes@.len() == 0,
    ensures
        kept(files, Some(includes), excludes).len() == 0,
    decreases files.len(),
{
    if files.len() > 0 {
        lemma_empty_includes_keep_nothing(files.drop_last(), includes, excludes);
    }
}

/// Without patterns every file is kept.
pub proof fn lemma_no_patterns_keep_all(files: Seq<FileView>)
    ensures
        kept(files, None, None) == files,
    decreases files.len(),
{
    if files.len() > 0 {
        lemma_no_patterns_keep_all(files.drop_last());
        assert(files.drop_last().push(files.last()) =~= files);
    }
}

} // verus!
