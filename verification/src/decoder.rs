//! Reading an archive: the check of its content hash, what is done with its
//! bytes under each format, and the list of what came out of it.

use vstd::prelude::*;
use crate::codec::{
    decoded, has_stream, read_to_end, sha256_digest, sha256_hex, Reader, READ_SIZE,
};
use crate::driver::{driver_of_filename, seven_z_tar_filename, seven_z_tar_filename_text, Driver};
use crate::encoder::{digesting_report, digesting_status};
use crate::error::Error;
use crate::manifest::WalkedEntry;
use crate::paths::{join_path, joined, parent_directory, parent_text, relative_path, relative_to};
use crate::status::{
    cumulative, declares_only, lemma_cumulative_push, record, reports, step_report, UpdateStatus,
    UpdateStatusView,
};
use crate::text::{join2, same_text};

verus! {

/// An archive that is to be read.
pub struct Decoder {
    output_directory: String,
    input_file_name: String,
    driver: Driver,
    sha256: Option<String>,
}

/// What is left to do with an archive whose bytes have been looked at.
pub enum ExtractStep {
    /// The tar stream is unpacked onto the output directory.
    Tar { tar_bytes: Vec<u8> },
    /// The entries of the zip archive are written one by one, and then the
    /// archive is extracted as a whole.
    Zip,
    /// The 7z codec extracts the archive into the output directory, which
    /// leaves a tar stream in a file at `temporary_tar_path`; that file is
    /// read and removed, and the tar stream is unpacked.
    SevenZ { temporary_tar_path: String },
}

/// An archive whose bytes have been looked at and accepted: what is left to
/// do with it, and the directory that takes its files.
pub struct Extraction {
    pub step: ExtractStep,
    pub output_directory: String,
}

/// What came out of an archive: the paths of the files under the output
/// directory, each once, relative to it.
pub struct Extracted {
    pub files: Vec<String>,
}

/// One entry of a zip archive, as its index lists it.
pub struct ZipEntry {
    pub name: String,
    pub is_file: bool,
}

/// Where the content of a zip entry is written.
pub struct ZipWrite {
    pub destination: String,
    pub parent: String,
}

/// What is done with one entry of a zip archive: the report, and where its
/// content goes, if it is a plain file.
pub struct ZipStep {
    pub report: UpdateStatus,
    pub write: Option<ZipWrite>,
}

/// What is done with the entries of a zip archive, one by one.
pub struct ZipPlan {
    pub opening: UpdateStatus,
    pub steps: Vec<ZipStep>,
}

/// The texts of a list of strings.
pub open spec fn texts(strings: Seq<String>) -> Seq<Seq<char>> {
    strings.map_values(|s: String| s@)
}

/// The reports of the steps of a plan, in order.
pub open spec fn zip_reports(steps: Seq<ZipStep>) -> Seq<UpdateStatusView> {
    steps.map_values(|s: ZipStep| s.report@)
}

/// The report that opens the reading of an archive's bytes.
pub open spec fn extracting_report(driver: Driver) -> UpdateStatusView {
    UpdateStatusView {
        brief: Some("Extracting "@ + driver.extension_text()),
        detail: Some("creating tar as binary blob"@),
        increment: None,
        total: Some(200u64),
    }
}

/// The reports of a reading that took `reads` reads to get its bytes: the
/// report that opens it, and one step for each read.
pub open spec fn reading_reports(driver: Driver, reads: nat) -> Seq<UpdateStatusView> {
    seq![extracting_report(driver)] + Seq::new(reads, |i: int| step_report())
}

/// The reports `after` are the reports `before` and those of a reading of
/// some number of reads.
pub open spec fn is_reading_log(
    after: Seq<UpdateStatusView>,
    before: Seq<UpdateStatusView>,
    driver: Driver,
) -> bool {
    exists|reads: nat| after == before + #[trigger] reading_reports(driver, reads)
}

/// The report that opens the unpacking of a tar stream.
pub open spec fn unpacking_report() -> UpdateStatusView {
    UpdateStatusView { brief: Some("Unpacking (tar)"@), detail: None, increment: None, total: None }
}

/// The report that opens the writing of the entries of a zip archive.
pub open spec fn zip_opening_report(count: u64) -> UpdateStatusView {
    UpdateStatusView {
        brief: Some("Extracting (zip)"@),
        detail: None,
        increment: None,
        total: Some(count),
    }
}

/// The report of one entry of a zip archive: one step of `count`.
pub open spec fn zip_entry_report(name: Seq<char>, count: u64) -> UpdateStatusView {
    UpdateStatusView {
        brief: None,
        detail: Some(name),
        increment: Some(1u64),
        total: Some(count),
    }
}

/// The report that opens the unpacking of a tar stream.
pub fn unpacking_status() -> (r: UpdateStatus)
    ensures
        r@ == unpacking_report(),
{
    UpdateStatus {
        brief: Some(String::from_str("Unpacking (tar)")),
        detail: None,
        increment: None,
        total: None,
    }
}

/// The path `s` is listed for the walk: it is not empty, and some entry
/// that is no directory has it as its path relative to `directory`.
pub open spec fn is_extracted(
    walked: Seq<WalkedEntry>,
    directory: Seq<char>,
    s: Seq<char>,
) -> bool {
    exists|i: int|
        0 <= i < walked.len() && !(#[trigger] walked[i]).is_dir && s.len() > 0 && relative_to(
            walked[i].path@,
            directory,
        ) == Some(s)
}

impl Decoder {
    /// The format of the archive.
    pub closed spec fn driver_spec(self) -> Driver {
        self.driver
    }

    /// The directory that the archive is extracted to.
    pub closed spec fn directory_text(self) -> Seq<char> {
        self.output_directory@
    }

    /// The path of the archive's file.
    pub closed spec fn input_text(self) -> Seq<char> {
        self.input_file_name@
    }

    /// The content hash that the archive is expected to have, if any.
    pub closed spec fn expected_text(self) -> Option<Seq<char>> {
        match self.sha256 {
            Some(digest) => Some(digest@),
            None => None,
        }
    }

    /// Whether `contents` fails the check of the content hash.
    pub open spec fn mismatch(self, contents: Seq<u8>) -> bool {
        self.expected_text().is_some() && self.expected_text().unwrap() != sha256_hex(contents)
    }

    /// The reports of the check of the content hash.
    pub open spec fn check_reports(self) -> Seq<UpdateStatusView> {
        if self.expected_text().is_some() {
            seq![digesting_report()]
        } else {
            Seq::empty()
        }
    }

    /// The reports `after` are the reports `before` and those of looking at
    /// `contents`: the check of the content hash; then, where the check
    /// passes, for 7z the report that opens the reading, and for gzip, bzip2
    /// and xz the reports of the reading; for zip none.
    pub open spec fn is_extract_log(
        self,
        contents: Seq<u8>,
        after: Seq<UpdateStatusView>,
        before: Seq<UpdateStatusView>,
    ) -> bool {
        let checked = before + self.check_reports();
        if self.mismatch(contents) || self.driver_spec() == Driver::Zip {
            after == checked
        } else if self.driver_spec() == Driver::SevenZ {
            after == checked.push(extracting_report(Driver::SevenZ))
        } else {
            is_reading_log(after, checked, self.driver_spec())
        }
    }

    /// The format of the archive.
    pub fn driver(&self) -> (r: Driver)
        ensures
            r == self.driver_spec(),
    {
        self.driver
    }

    /// The path of the archive's file.
    pub fn input_file_name(&self) -> (r: String)
        ensures
            r@ == self.input_text(),
    {
        self.input_file_name.clone()
    }

    /// The directory that the archive is extracted to.
    pub fn output_directory(&self) -> (r: String)
        ensures
            r@ == self.directory_text(),
    {
        self.output_directory.clone()
    }

    /// A decoder for the archive at `input_file_path`, to be extracted to
    /// `destination_directory`. The suffix of the path selects the format; a
    /// path that selects none is refused.
    pub fn new(input_file_path: &str, sha256: Option<String>, destination_directory: &str) -> (r:
        Result<Decoder, Error>)
        ensures
            match r {
                Ok(decoder) => {
                    &&& driver_of_filename(input_file_path@) == Some(decoder.driver_spec())
                    &&& decoder.directory_text() == destination_directory@
                    &&& decoder.input_text() == input_file_path@
                    &&& decoder.expected_text() == (match sha256 {
                        Some(digest) => Some(digest@),
                        None => None,
                    })
                },
                Err(Error::UnsupportedFormat { filename }) => {
                    &&& driver_of_filename(input_file_path@).is_none()
                    &&& filename@ == input_file_path@
                },
                Err(_) => false,
            },
    {
        match Driver::from_filename(input_file_path) {
            None => Err(Error::UnsupportedFormat { filename: String::from_str(input_file_path) }),
            Some(driver) => Ok(
                Decoder {
                    output_directory: String::from_str(destination_directory),
                    input_file_name: String::from_str(input_file_path),
                    driver,
                    sha256,
                },
            ),
        }
    }

    /// Reads a decompressor to its end, in pieces of at most `READ_SIZE`
    /// bytes, with a report at the start and one after each piece. Gives the bytes
    /// that the decompressor had pending where it ends well, and fails where
    /// it does not.
    pub fn extract_to_tar_bytes<F: Fn(UpdateStatus)>(
        reader: Reader,
        log: &mut Vec<UpdateStatus>,
        observe: &F,
    ) -> (r: Result<Vec<u8>, Error>)
        requires
            forall|u: UpdateStatus| observe.requires((u,)),
        ensures
            is_reading_log(reports(final(log)@), reports(old(log)@), reader.driver()),
            match r {
                Ok(bytes) => read_to_end(reader.pending(), reader.ends_well()) == Some(bytes@),
                Err(e) => {
                    &&& e is CodecFailure
                    &&& read_to_end(reader.pending(), reader.ends_well()).is_none()
                },
            },
    {
        let ghost before = reports(log@);
        let ghost driver = reader.driver();
        let extension = reader.extension();
        record(
            log,
            observe,
            UpdateStatus {
                brief: Some(join2("Extracting ", extension.as_str())),
                detail: Some(String::from_str("creating tar as binary blob")),
                increment: None,
                total: Some(200),
            },
        );
        proof {
            assert(reports(log@) =~= before + reading_reports(driver, 0));
        }
        let mut current = reader;
        let mut result: Vec<u8> = Vec::new();
        let mut buffer: Vec<u8> = vec![0u8; READ_SIZE];
        let ghost mut reads: nat = 0;
        loop
            invariant
                forall|u: UpdateStatus| observe.requires((u,)),
                buffer@.len() == READ_SIZE,
                driver == reader.driver(),
                before == reports(old(log)@),
                current.driver() == driver,
                current.ends_well() == reader.ends_well(),
                result@ + current.pending() == reader.pending(),
                reports(log@) == before + reading_reports(driver, reads),
            decreases current.pending().len(),
        {
            let ghost pending = current.pending();
            let bytes_read = match current.read(&mut buffer) {
                Ok(n) => n,
                Err(e) => {
                    return Err(e);
                },
            };
            if bytes_read == 0 {
                proof {
                    assert(result@ + pending =~= result@);
                }
                return Ok(result);
            }
            let ghost taken = result@;
            let mut i: usize = 0;
            while i < bytes_read
                invariant
                    i <= bytes_read <= buffer@.len(),
                    result@ == taken + buffer@.take(i as int),
                decreases bytes_read - i,
            {
                result.push(buffer[i]);
                proof {
                    assert(buffer@.take(i + 1) =~= buffer@.take(i as int).push(buffer@[i as int]));
                }
                i += 1;
            }
            let ghost so_far = reports(log@);
            record(log, observe, UpdateStatus::step());
            proof {
                assert(taken + pending.take(bytes_read as int) + pending.skip(bytes_read as int)
                    =~= taken + pending);
                assert(reports(log@) =~= so_far.push(step_report()));
                assert(so_far.push(step_report()) =~= before + reading_reports(
                    driver,
                    reads + 1,
                ));
                reads = reads + 1;
            }
        }
    }

    /// Looks at the bytes of the archive's file. Where a content hash is
    /// expected and the bytes have another, the archive is refused and
    /// nothing is to be extracted. Else the format decides: a gzip, bzip2 or
    /// xz archive is decompressed to its tar stream, and refused where it is
    /// not sound; a zip or 7z archive is left to its own extraction.
    pub fn extract<F: Fn(UpdateStatus)>(
        self,
        contents: Vec<u8>,
        log: &mut Vec<UpdateStatus>,
        observe: &F,
    ) -> (r: Result<Extraction, Error>)
        requires
            forall|u: UpdateStatus| observe.requires((u,)),
        ensures
            self.is_extract_log(contents@, reports(final(log)@), reports(old(log)@)),
            self.mismatch(contents@) <==> r matches Err(Error::DigestMismatch { .. }),
            match r {
                Ok(extraction) => {
                    &&& extraction.directory_text() == self.directory_text()
                    &&& match extraction.step {
                        ExtractStep::Tar { tar_bytes } => {
                            &&& has_stream(self.driver_spec())
                            &&& decoded(self.driver_spec(), contents@) == Some(tar_bytes@)
                        },
                        ExtractStep::Zip => self.driver_spec() == Driver::Zip,
                        ExtractStep::SevenZ { temporary_tar_path } => {
                            &&& self.driver_spec() == Driver::SevenZ
                            &&& temporary_tar_path@ == joined(
                                self.directory_text(),
                                seven_z_tar_filename_text(),
                            )
                        },
                    }
                },
                Err(Error::DigestMismatch { expected, actual }) => {
                    &&& Some(expected@) == self.expected_text()
                    &&& actual@ == sha256_hex(contents@)
                },
                Err(Error::CodecFailure { .. }) => {
                    &&& has_stream(self.driver_spec())
                    &&& decoded(self.driver_spec(), contents@).is_none()
                },
                Err(_) => false,
            },
    {
        let ghost before = reports(log@);
        if let Some(digest) = &self.sha256 {
            record(log, observe, digesting_status());
            proof {
                assert(reports(log@) =~= before + self.check_reports());
            }
            let actual = sha256_digest(contents.as_slice());
            if !same_text(actual.as_str(), digest.as_str()) {
                return Err(Error::DigestMismatch { expected: digest.clone(), actual });
            }
        }
        proof {
            assert(reports(log@) =~= before + self.check_reports());
        }
        let ghost checked = reports(log@);
        match Reader::open(self.driver, contents) {
            Some(reader) => match Self::extract_to_tar_bytes(reader, log, observe) {
                Ok(tar_bytes) => Ok(
                    Extraction {
                        step: ExtractStep::Tar { tar_bytes },
                        output_directory: self.output_directory,
                    },
                ),
                Err(e) => Err(e),
            },
            None => match self.driver {
                Driver::Zip => Ok(
                    Extraction { step: ExtractStep::Zip, output_directory: self.output_directory },
                ),
                _ => {
                    let extension = self.driver.extension();
                    record(
                        log,
                        observe,
                        UpdateStatus {
                            brief: Some(join2("Extracting ", extension.as_str())),
                            detail: Some(String::from_str("creating tar as binary blob")),
                            increment: None,
                            total: Some(200),
                        },
                    );
                    proof {
                        assert(reports(log@) =~= checked.push(extracting_report(Driver::SevenZ)));
                    }
                    let name = seven_z_tar_filename();
                    let temporary_tar_path = join_path(
                        self.output_directory.as_str(),
                        name.as_str(),
                    );
                    Ok(
                        Extraction {
                            step: ExtractStep::SevenZ { temporary_tar_path },
                            output_directory: self.output_directory,
                        },
                    )
                },
            },
        }
    }
}

impl Extraction {
    /// The directory that takes the archive's files.
    pub open spec fn directory_text(self) -> Seq<char> {
        self.output_directory@
    }

    /// What is done with the entries of a zip archive, in the order of its
    /// index: each is reported by its name, as one step of as many as there
    /// are entries, and the content of each plain file goes to the path of
    /// its name under the output directory, in the directory that holds that
    /// path.
    pub fn zip_plan(&self, entries: &[ZipEntry]) -> (plan: ZipPlan)
        ensures
            plan.opening@ == zip_opening_report(entries@.len() as u64),
            plan.steps@.len() == entries@.len(),
            forall|i: int|
                0 <= i < entries@.len() ==> {
                    &&& (#[trigger] plan.steps@[i]).report@ == zip_entry_report(
                        entries@[i].name@,
                        entries@.len() as u64,
                    )
                    &&& plan.steps@[i].write.is_some() == entries@[i].is_file
                    &&& entries@[i].is_file ==> {
                        &&& plan.steps@[i].write.unwrap().destination@ == joined(
                            self.directory_text(),
                            entries@[i].name@,
                        )
                        &&& plan.steps@[i].write.unwrap().parent@ == parent_text(
                            joined(self.directory_text(), entries@[i].name@),
                        )
                    }
                },
            cumulative(zip_reports(plan.steps@)) == entries@.len(),
            declares_only(zip_reports(plan.steps@), entries@.len() as u64),
    {
        let total: u64 = entries.len() as u64;
        let opening = UpdateStatus {
            brief: Some(String::from_str("Extracting (zip)")),
            detail: None,
            increment: None,
            total: Some(total),
        };
        let mut steps: Vec<ZipStep> = Vec::new();
        let mut i: usize = 0;
        while i < entries.len()
            invariant
                i <= entries@.len(),
                total == entries@.len() as u64,
                steps@.len() == i,
                forall|k: int|
                    0 <= k < i ==> {
                        &&& (#[trigger] steps@[k]).report@ == zip_entry_report(
                            entries@[k].name@,
                            total,
                        )
                        &&& steps@[k].write.is_some() == entries@[k].is_file
                        &&& entries@[k].is_file ==> {
                            &&& steps@[k].write.unwrap().destination@ == joined(
                                self.directory_text(),
                                entries@[k].name@,
                            )
                            &&& steps@[k].write.unwrap().parent@ == parent_text(
                                joined(self.directory_text(), entries@[k].name@),
                            )
                        }
                    },
                cumulative(zip_reports(steps@)) == i,
                declares_only(zip_reports(steps@), total),
            decreases entries@.len() - i,
        {
            let entry = &entries[i];
            let report = UpdateStatus {
                brief: None,
                detail: Some(entry.name.clone()),
                increment: Some(1),
                total: Some(total),
            };
            let write = if entry.is_file {
                let destination = join_path(self.output_directory.as_str(), entry.name.as_str());
                let parent = parent_directory(destination.as_str());
                Some(ZipWrite { destination, parent })
            } else {
                None
            };
            let ghost before = steps@;
            steps.push(ZipStep { report, write });
            proof {
                assert(zip_reports(steps@) =~= zip_reports(before).push(report@));
                lemma_cumulative_push(zip_reports(before), report@);
            }
            i += 1;
        }
        ZipPlan { opening, steps }
    }

    /// What came out of the archive, from a walk of the output directory:
    /// the path of every entry that is no directory and lies under the
    /// output directory, relative to it, each path once. The directory's own
    /// entry, which has no path relative to it, is left out.
    pub fn extracted(self, walked: &Vec<WalkedEntry>) -> (r: Extracted)
        ensures
            texts(r.files@).no_duplicates(),
            forall|s: Seq<char>|
                texts(r.files@).contains(s) <==> is_extracted(walked@, self.directory_text(), s),
    {
        let ghost directory = self.directory_text();
        let mut files: Vec<String> = Vec::new();
        let mut i: usize = 0;
        while i < walked.len()
            invariant
                i <= walked.len(),
                directory == self.directory_text(),
                texts(files@).no_duplicates(),
                forall|s: Seq<char>|
                    texts(files@).contains(s) <==> is_extracted(
                        walked@.take(i as int),
                        directory,
                        s,
                    ),
            decreases walked.len() - i,
        {
            let entry = &walked[i];
            let ghost old_texts = texts(files@);
            let ghost mut added: Option<Seq<char>> = None;
            let ghost mut found: Option<Seq<char>> = None;
            if !entry.is_dir {
                match relative_path(entry.path.as_str(), self.output_directory.as_str()) {
                    Some(relative) => {
                        if relative.as_str().unicode_len() > 0 {
                            proof {
                                found = Some(relative@);
                            }
                            if !contains_text(&files, relative.as_str()) {
                                proof {
                                    added = Some(relative@);
                                }
                                let ghost before = files@;
                                files.push(relative);
                                proof {
                                    assert(texts(files@) =~= texts(before).push(added.unwrap()));
                                }
                            }
                        }
                    },
                    None => {},
                }
            }
            proof {
                let shorter = walked@.take(i as int);
                let longer = walked@.take(i + 1);
                assert(longer[i as int] == walked@[i as int]);
                assert(added.is_none() ==> texts(files@) == old_texts);
                assert(found.is_some() ==> texts(files@).contains(found.unwrap())) by {
                    if found.is_some() {
                        if added.is_some() {
                            assert(texts(files@)[old_texts.len() as int] == found.unwrap());
                        }
                    }
                }
                assert forall|s: Seq<char>| texts(files@).contains(s) <==> is_extracted(
                    longer,
                    directory,
                    s,
                ) by {
                    if is_extracted(longer, directory, s) {
                        let k = choose|k: int|
                            0 <= k < longer.len() && !(#[trigger] longer[k]).is_dir && s.len() > 0
                                && relative_to(longer[k].path@, directory) == Some(s);
                        if k < i {
                            assert(shorter[k] == longer[k]);
                            assert(is_extracted(shorter, directory, s));
                            assert(old_texts.contains(s));
                            let j = choose|j: int| 0 <= j < old_texts.len() && old_texts[j] == s;
                            assert(texts(files@)[j] == s);
                        } else {
                            assert(found == Some(s));
                        }
                    }
                    if texts(files@).contains(s) {
                        let j = choose|j: int|
                            0 <= j < texts(files@).len() && texts(files@)[j] == s;
                        if j < old_texts.len() {
                            assert(old_texts[j] == s);
                            assert(old_texts.contains(s));
                            let k = choose|k: int|
                                0 <= k < shorter.len() && !(#[trigger] shorter[k]).is_dir
                                    && s.len() > 0 && relative_to(shorter[k].path@, directory)
                                    == Some(s);
                            assert(longer[k] == shorter[k]);
                        } else {
                            assert(added == Some(s));
                            assert(!longer[i as int].is_dir);
                        }
                    }
                }
            }
            i += 1;
        }
        proof {
            assert(walked@.take(i as int) =~= walked@);
        }
        Extracted { files }
    }
}

/// Whether a list of strings holds the text `s`.
pub fn contains_text(strings: &Vec<String>, s: &str) -> (r: bool)
    ensures
        r == texts(strings@).contains(s@),
{
    let wanted = String::from_str(s);
    let mut i: usize = 0;
    while i < strings.len()
        invariant
            i <= strings.len(),
            wanted@ == s@,
            forall|k: int| 0 <= k < i ==> texts(strings@)[k] != s@,
        decreases strings.len() - i,
    {
        if strings[i] == wanted {
            proof {
                assert(texts(strings@)[i as int] == s@);
            }
            return true;
        }
        i += 1;
    }
    false
}

} // verus!
