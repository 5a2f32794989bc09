//! The formats that the library knows, and the file names that select them.

use vstd::prelude::*;
use crate::text::{ends_with, is_suffix, lemma_suffix_char, same_text};

verus! {

/// One of the supported archive formats.
#[derive(Debug, Copy, Clone, PartialEq, Eq, Structural)]
pub enum Driver {
    Gzip,
    Bzip2,
    Zip,
    SevenZ,
    Xz,
}

/// The name of the tar file through which a 7z archive is written and read.
pub open spec fn seven_z_tar_filename_text() -> Seq<char> {
    "swiss_army_archive_seven7_temp.tar"@
}

/// The name of the tar file through which a 7z archive is written and read.
pub fn seven_z_tar_filename() -> (r: String)
    ensures
        r@ == seven_z_tar_filename_text(),
{
    String::from_str("swiss_army_archive_seven7_temp.tar")
}

/// The format that an extension names, if any: the suffixes that select a
/// format, without their leading dot.
pub open spec fn driver_of_extension(extension: Seq<char>) -> Option<Driver> {
    if extension == "tar.gz"@ || extension == "tgz"@ {
        Some(Driver::Gzip)
    } else if extension == "tar.bz2"@ || extension == "tar.bz"@ {
        Some(Driver::Bzip2)
    } else if extension == "zip"@ {
        Some(Driver::Zip)
    } else if extension == "tar.7z"@ {
        Some(Driver::SevenZ)
    } else if extension == "tar.xz"@ {
        Some(Driver::Xz)
    } else {
        None
    }
}

/// The format that a file name selects by its suffix, if any.
pub open spec fn driver_of_filename(filename: Seq<char>) -> Option<Driver> {
    if is_suffix(filename, ".tar.gz"@) || is_suffix(filename, ".tgz"@) {
        Some(Driver::Gzip)
    } else if is_suffix(filename, ".tar.bz"@) || is_suffix(filename, ".tar.bz2"@) {
        Some(Driver::Bzip2)
    } else if is_suffix(filename, ".zip"@) {
        Some(Driver::Zip)
    } else if is_suffix(filename, ".tar.7z"@) {
        Some(Driver::SevenZ)
    } else if is_suffix(filename, ".tar.xz"@) {
        Some(Driver::Xz)
    } else {
        None
    }
}

impl Driver {
    /// The extension under which this format writes its archives.
    pub open spec fn extension_text(self) -> Seq<char> {
        match self {
            Driver::Gzip => "tar.gz"@,
            Driver::Bzip2 => "tar.bz2"@,
            Driver::Zip => "zip"@,
            Driver::SevenZ => "tar.7z"@,
            Driver::Xz => "tar.xz"@,
        }
    }

    /// Whether the format packs its entries into a tar stream first.
    pub open spec fn is_tar_backed(self) -> bool {
        self != Driver::Zip
    }

    /// Whether the format packs its entries into a tar stream first.
    pub fn uses_tar(&self) -> (r: bool)
        ensures
            r == self.is_tar_backed(),
    {
        match self {
            Driver::Zip => false,
            _ => true,
        }
    }

    /// The extension under which this format writes its archives.
    pub fn extension(&self) -> (r: String)
        ensures
            r@ == self.extension_text(),
    {
        match self {
            Driver::Gzip => String::from_str("tar.gz"),
            Driver::Bzip2 => String::from_str("tar.bz2"),
            Driver::Zip => String::from_str("zip"),
            Driver::SevenZ => String::from_str("tar.7z"),
            Driver::Xz => String::from_str("tar.xz"),
        }
    }

    /// The format that `extension` names: its own extension, or an accepted
    /// other spelling of it.
    pub fn from_extension(extension: &str) -> (r: Option<Driver>)
        ensures
            r == driver_of_extension(extension@),
    {
        if same_text(extension, "tar.gz") || same_text(extension, "tgz") {
            Some(Driver::Gzip)
        } else if same_text(extension, "tar.bz2") || same_text(extension, "tar.bz") {
            Some(Driver::Bzip2)
        } else if same_text(extension, "zip") {
            Some(Driver::Zip)
        } else if same_text(extension, "tar.7z") {
            Some(Driver::SevenZ)
        } else if same_text(extension, "tar.xz") {
            Some(Driver::Xz)
        } else {
            None
        }
    }

    /// The format that `filename` selects by its suffix; `None` where the
    /// suffix is not a known one.
    pub fn from_filename(filename: &str) -> (r: Option<Driver>)
        ensures
            r == driver_of_filename(filename@),
    {
        if ends_with(filename, ".tar.gz") || ends_with(filename, ".tgz") {
            Some(Driver::Gzip)
        } else if ends_with(filename, ".tar.bz") || ends_with(filename, ".tar.bz2") {
            Some(Driver::Bzip2)
        } else if ends_with(filename, ".zip") {
            Some(Driver::Zip)
        } else if ends_with(filename, ".tar.7z") {
            Some(Driver::SevenZ)
        } else if ends_with(filename, ".tar.xz") {
            Some(Driver::Xz)
        } else {
            None
        }
    }
}

/// Each format's own extension names that format, so no two formats share an
/// extension.
pub proof fn lemma_extension_names_its_driver(d: Driver)
    ensures
        driver_of_extension(d.extension_text()) == Some(d),
{
    reveal_strlit("tar.gz");
    reveal_strlit("tgz");
    reveal_strlit("tar.bz2");
    reveal_strlit("tar.bz");
    reveal_strlit("zip");
    reveal_strlit("tar.7z");
    reveal_strlit("tar.xz");
    assert("tar.gz"@[4] == 'g' && "tar.bz"@[4] == 'b' && "tar.bz2"@[4] == 'b');
    assert("tar.7z"@[4] == '7' && "tar.xz"@[4] == 'x');
    assert("zip"@[0] == 'z' && "tgz"@[0] == 't');
    assert("zip"@.len() == 3 && "tgz"@.len() == 3 && "tar.gz"@.len() == 6);
    assert("tar.bz"@.len() == 6 && "tar.bz2"@.len() == 7);
    assert("tar.7z"@.len() == 6 && "tar.xz"@.len() == 6);
}

/// An extension that names a format selects that format as the end of a
/// file name, after a dot, whatever stands before the dot.
pub proof fn lemma_extension_selects_as_suffix(stem: Seq<char>, extension: Seq<char>)
    requires
        driver_of_extension(extension).is_some(),
    ensures
        driver_of_filename(stem + "."@ + extension) == driver_of_extension(extension),
{
    reveal_strlit(".");
    reveal_strlit("tgz");
    reveal_strlit("tar.bz");
    reveal_strlit("tar.gz");
    reveal_strlit("tar.bz2");
    reveal_strlit(".tgz");
    reveal_strlit(".tar.gz");
    reveal_strlit(".tar.bz");
    let name = stem + "."@ + extension;
    let n = name.len() as int;
    if extension == "tgz"@ {
        assert(name.subrange(n - 4, n) =~= ".tgz"@);
    } else if extension == "tar.bz"@ {
        assert(name.subrange(n - 7, n) =~= ".tar.bz"@);
        assert(name[n - 2] == 'b');
        if is_suffix(name, ".tar.gz"@) {
            lemma_suffix_char(name, ".tar.gz"@, 2);
        }
        if is_suffix(name, ".tgz"@) {
            lemma_suffix_char(name, ".tgz"@, 2);
        }
    } else {
        let d = driver_of_extension(extension).unwrap();
        lemma_extension_names_its_driver(d);
        reveal_strlit("zip");
        reveal_strlit("tar.7z");
        reveal_strlit("tar.xz");
        assert(extension == d.extension_text());
        lemma_filename_selects_its_driver(stem, d);
    }
}

/// A file name that ends in a dot and a format's extension selects that
/// format, whatever stands before the dot.
pub proof fn lemma_filename_selects_its_driver(stem: Seq<char>, d: Driver)
    ensures
        driver_of_filename(stem + "."@ + d.extension_text()) == Some(d),
{
    reveal_strlit(".");
    reveal_strlit("tar.gz");
    reveal_strlit("tar.bz2");
    reveal_strlit("zip");
    reveal_strlit("tar.7z");
    reveal_strlit("tar.xz");
    reveal_strlit(".tar.gz");
    reveal_strlit(".tgz");
    reveal_strlit(".tar.bz");
    reveal_strlit(".tar.bz2");
    reveal_strlit(".zip");
    reveal_strlit(".tar.7z");
    reveal_strlit(".tar.xz");
    let name = stem + "."@ + d.extension_text();
    let n = name.len() as int;
    let others = seq![".tar.gz"@, ".tgz"@, ".tar.bz"@, ".tar.bz2"@, ".zip"@];
    match d {
        Driver::Gzip => {
            assert(name.subrange(n - 7, n) =~= ".tar.gz"@);
        },
        Driver::Bzip2 => {
            assert(name.subrange(n - 8, n) =~= ".tar.bz2"@);
            assert(name[n - 1] == '2');
            assert forall|k: int| 0 <= k < 3 implies !is_suffix(name, #[trigger] others[k]) by {
                if is_suffix(name, others[k]) {
                    lemma_suffix_char(name, others[k], 1);
                }
            }
            assert(!is_suffix(name, others[0]) && !is_suffix(name, others[1]));
        },
        Driver::Zip => {
            assert(name.subrange(n - 4, n) =~= ".zip"@);
            assert(name[n - 1] == 'p');
            assert forall|k: int| 0 <= k < 4 implies !is_suffix(name, #[trigger] others[k]) by {
                if is_suffix(name, others[k]) {
                    lemma_suffix_char(name, others[k], 1);
                }
            }
            assert(!is_suffix(name, others[0]) && !is_suffix(name, others[1]));
            assert(!is_suffix(name, others[2]) && !is_suffix(name, others[3]));
        },
        Driver::SevenZ => {
            assert(name.subrange(n - 7, n) =~= ".tar.7z"@);
            assert(name[n - 2] == '7');
            assert forall|k: int| 0 <= k < 5 implies !is_suffix(name, #[trigger] others[k]) by {
                if is_suffix(name, others[k]) {
                    lemma_suffix_char(name, others[k], 2);
                }
            }
            assert(!is_suffix(name, others[0]) && !is_suffix(name, others[1]));
            assert(!is_suffix(name, others[2]) && !is_suffix(name, others[3]));
            assert(!is_suffix(name, others[4]));
        },
        Driver::Xz => {
            assert(name.subrange(n - 7, n) =~= ".tar.xz"@);
            assert(name[n - 2] == 'x');
            assert forall|k: int| 0 <= k < 5 implies !is_suffix(name, #[trigger] others[k]) by {
                if is_suffix(name, others[k]) {
                    lemma_suffix_char(name, others[k], 2);
                }
            }
            assert(!is_suffix(name, others[0]) && !is_suffix(name, others[1]));
            assert(!is_suffix(name, others[2]) && !is_suffix(name, others[3]));
            assert(!is_suffix(name, others[4]));
            if is_suffix(name, ".tar.7z"@) {
                lemma_suffix_char(name, ".tar.7z"@, 2);
            }
        },
    }
}

} // verus!
