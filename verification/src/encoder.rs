//! Writing an archive: which container takes the entries, what is done with
//! each entry, and how the finished container becomes the output file.

use vstd::prelude::*;
use vstd::slice::slice_subrange;
use crate::codec::{
    codec_failure, fresh, has_stream, is_digest_text, lemma_refused_stays, sha256_digest,
    sha256_hex, Stream,
};
use crate::driver::{driver_of_filename, seven_z_tar_filename, seven_z_tar_filename_text, Driver};
use crate::error::Error;
use crate::paths::{join_path, joined};
use crate::status::{
    cumulative, declares_only, lemma_cumulative_push, record, reports, UpdateStatus,
    UpdateStatusView,
};
use crate::tarball::{
    file_entry, link_entry, tar_append_file, tar_append_symlink, tar_entries, tar_into_inner,
    tar_new, tar_stream, tar_takes, FileMeta, TarBuilder, TarEntry,
};
use crate::text::join3;

verus! {

/// A file to archive: its path in the archive and its path on disk.
pub struct Entry {
    pub archive_path: String,
    pub file_path: String,
}

/// The permission bits that every entry of a zip archive gets.
pub const ZIP_UNIX_PERMISSIONS: u32 = 0o755;

/// The container that takes the entries while an archive is written.
pub enum Container {
    /// A tar stream that is built in memory and compressed as a whole.
    Tar,
    /// A zip archive that is written to the output file as the entries come.
    Zip { path: String },
}

/// What is done with one entry.
pub enum AddStep {
    /// The link at `file_path` goes into the tar stream as a link to its
    /// target.
    TarSymlink { archive_path: String, file_path: String },
    /// The file at `file_path` goes into the tar stream with its content.
    TarFile { archive_path: String, file_path: String },
    /// The content of the file at `file_path` goes into the zip archive,
    /// deflated or stored as it is, with the given permission bits.
    ZipFile { archive_path: String, file_path: String, deflated: bool, unix_permissions: u32 },
}

/// A step as a mathematical value.
pub enum AddStepView {
    TarSymlink { archive_path: Seq<char>, file_path: Seq<char> },
    TarFile { archive_path: Seq<char>, file_path: Seq<char> },
    ZipFile {
        archive_path: Seq<char>,
        file_path: Seq<char>,
        deflated: bool,
        unix_permissions: u32,
    },
}

impl View for AddStep {
    type V = AddStepView;

    open spec fn view(&self) -> AddStepView {
        match *self {
            AddStep::TarSymlink { archive_path, file_path } => AddStepView::TarSymlink {
                archive_path: archive_path@,
                file_path: file_path@,
            },
            AddStep::TarFile { archive_path, file_path } => AddStepView::TarFile {
                archive_path: archive_path@,
                file_path: file_path@,
            },
            AddStep::ZipFile {
                archive_path,
                file_path,
                deflated,
                unix_permissions,
            } => AddStepView::ZipFile {
                archive_path: archive_path@,
                file_path: file_path@,
                deflated,
                unix_permissions,
            },
        }
    }
}

impl AddStepView {
    /// The path in the archive of the entry that the step is about.
    pub open spec fn archive_path(self) -> Seq<char> {
        match self {
            AddStepView::TarSymlink { archive_path, .. } => archive_path,
            AddStepView::TarFile { archive_path, .. } => archive_path,
            AddStepView::ZipFile { archive_path, .. } => archive_path,
        }
    }
}

impl AddStep {
    /// The path in the archive of the entry that the step is about.
    pub fn archive_path(&self) -> (r: String)
        ensures
            r@ == self@.archive_path(),
    {
        match self {
            AddStep::TarSymlink { archive_path, .. } => archive_path.clone(),
            AddStep::TarFile { archive_path, .. } => archive_path.clone(),
            AddStep::ZipFile { archive_path, .. } => archive_path.clone(),
        }
    }
}

/// What is done with an entry under a format: a zip archive takes the file's
/// content, deflated, with the fixed permission bits; a tar stream takes a
/// link as a link and any other file with its content.
pub open spec fn step_for(
    driver: Driver,
    archive_path: Seq<char>,
    file_path: Seq<char>,
    is_symlink: bool,
) -> AddStepView {
    if !driver.is_tar_backed() {
        AddStepView::ZipFile {
            archive_path,
            file_path,
            deflated: true,
            unix_permissions: ZIP_UNIX_PERMISSIONS,
        }
    } else if is_symlink {
        AddStepView::TarSymlink { archive_path, file_path }
    } else {
        AddStepView::TarFile { archive_path, file_path }
    }
}

/// The report of a file that is added by itself: one step of a phase whose
/// length is not known.
pub open spec fn file_report(archive_path: Seq<char>) -> UpdateStatusView {
    UpdateStatusView {
        brief: None,
        detail: Some(archive_path),
        increment: Some(1u64),
        total: None,
    }
}

/// The report of a file that is added as one of `total`.
pub open spec fn entry_report(archive_path: Seq<char>, total: u64) -> UpdateStatusView {
    UpdateStatusView {
        brief: None,
        detail: Some(archive_path),
        increment: Some(1u64),
        total: Some(total),
    }
}

/// One entry of a plan: the report, then the step.
pub struct PlannedAdd {
    pub report: UpdateStatus,
    pub step: AddStep,
}

/// What is done with a list of entries: a report that opens the phase, the
/// entries in order, and a report that closes it.
pub struct EntriesPlan {
    pub opening: UpdateStatus,
    pub adds: Vec<PlannedAdd>,
    pub closing: UpdateStatus,
}

/// The failure of an entry: its path in the archive, and what went wrong.
pub struct EntryFailure {
    pub archive_path: String,
    pub error: Error,
}

impl EntriesPlan {
    /// The entry that the run starts with, if there is one.
    pub fn first(&self) -> (r: Option<usize>)
        ensures
            r == (if self.adds@.len() > 0 {
                Some(0usize)
            } else {
                None
            }),
    {
        if self.adds.len() > 0 {
            Some(0)
        } else {
            None
        }
    }

    /// Where the run goes once entry `index` has ended with `result`: on to
    /// the next entry; to its end after the last; or, where the entry
    /// failed, to a stop with that failure under the entry's path in the
    /// archive, so that no later entry is tried.
    pub fn next(&self, index: usize, result: Result<(), Error>) -> (r: Result<
        Option<usize>,
        EntryFailure,
    >)
        requires
            index < self.adds@.len(),
        ensures
            match result {
                Ok(()) => r == Ok::<Option<usize>, EntryFailure>(
                    if index + 1 < self.adds@.len() {
                        Some((index + 1) as usize)
                    } else {
                        None
                    },
                ),
                Err(error) => {
                    &&& r is Err
                    &&& r->Err_0.error == error
                    &&& r->Err_0.archive_path@ == self.adds@[index as int].step@.archive_path()
                },
            },
    {
        match result {
            Ok(()) => {
                if index < self.adds.len() - 1 {
                    Ok(Some(index + 1))
                } else {
                    Ok(None)
                }
            },
            Err(error) => Err(
                EntryFailure { archive_path: self.adds[index].step.archive_path(), error },
            ),
        }
    }
}

/// The reports of the entries of a plan, in order.
pub open spec fn add_reports(adds: Seq<PlannedAdd>) -> Seq<UpdateStatusView> {
    adds.map_values(|a: PlannedAdd| a.report@)
}

/// Whether entry `i` is flagged as a link; an entry without a flag is none.
pub open spec fn flagged(is_symlink: Seq<bool>, i: int) -> bool {
    0 <= i < is_symlink.len() && is_symlink[i]
}

/// The size of the chunks in which `len` bytes go to a compressor: a 4096th
/// of the whole, and the whole at once where that is less than a byte.
pub open spec fn chunk_size(len: nat) -> nat {
    if len / 4096 == 0 {
        len
    } else {
        len / 4096
    }
}

/// The number of chunks in which `len` bytes go to a compressor.
pub open spec fn chunk_count(len: nat) -> nat {
    if len == 0 {
        0
    } else {
        ((len - 1) / chunk_size(len) as int + 1) as nat
    }
}

/// The report that opens the compression of a tar stream.
pub open spec fn compressing_report(driver: Driver) -> UpdateStatusView {
    UpdateStatusView {
        brief: None,
        detail: Some("Compressing ("@ + driver.extension_text() + ")"@),
        increment: None,
        total: None,
    }
}

/// The report that goes before each chunk: one step of `count`.
pub open spec fn chunk_report(count: u64) -> UpdateStatusView {
    UpdateStatusView { brief: None, detail: None, increment: Some(1u64), total: Some(count) }
}

/// The reports of a compression that got to `chunks` chunks of `count`.
pub open spec fn chunk_reports(driver: Driver, count: u64, chunks: nat) -> Seq<UpdateStatusView> {
    seq![compressing_report(driver)] + Seq::new(chunks, |i: int| chunk_report(count))
}

/// Chunk number `i` of `contents`: the bytes from `i` chunk sizes on, a
/// chunk size of them or what is left.
pub open spec fn chunk_of(contents: Seq<u8>, i: int) -> Seq<u8> {
    let size = chunk_size(contents.len()) as int;
    let start = i * size;
    let end = if start + size >= contents.len() {
        contents.len() as int
    } else {
        start + size
    };
    contents.subrange(start, end)
}

/// The chunks in which `contents` go to a compressor, in order.
pub open spec fn chunks_of(contents: Seq<u8>) -> Seq<Seq<u8>> {
    Seq::new(chunk_count(contents.len()), |i: int| chunk_of(contents, i))
}

/// How many chunks of `contents` are handed to the compressor: those that
/// it takes in and, where it refuses one, that one.
pub open spec fn fed_chunks(stream: Stream, contents: Seq<u8>) -> nat {
    let taken = stream.accepted(chunks_of(contents));
    if taken < chunk_count(contents.len()) {
        taken + 1
    } else {
        chunk_count(contents.len())
    }
}

/// What a fresh compressor of the format makes of `contents`, fed in
/// chunks: its output, where it takes in every chunk and can be ended.
pub open spec fn compressed(driver: Driver, contents: Seq<u8>) -> Option<Seq<u8>> {
    match fresh(driver) {
        Some(stream) => if stream.accepts_all(chunks_of(contents)) {
            stream.after_all(chunks_of(contents)).output()
        } else {
            None
        },
        None => None,
    }
}

/// The steps that a compression reports add up to the number of chunks that
/// it got to, each declared as one of `count`.
pub proof fn lemma_chunk_reports_sum(driver: Driver, count: u64, chunks: nat)
    ensures
        cumulative(chunk_reports(driver, count, chunks)) == chunks,
        declares_only(chunk_reports(driver, count, chunks), count),
    decreases chunks,
{
    let all = chunk_reports(driver, count, chunks);
    if chunks == 0 {
        assert(all =~= seq![compressing_report(driver)]);
        assert(all.drop_last() =~= Seq::<UpdateStatusView>::empty());
        assert(cumulative(all.drop_last()) == 0);
    } else {
        lemma_chunk_reports_sum(driver, count, (chunks - 1) as nat);
        assert(all.drop_last() =~= chunk_reports(driver, count, (chunks - 1) as nat));
        assert(all.last() == chunk_report(count));
    }
}

/// There are no more chunks than bytes.
pub proof fn lemma_chunk_count_bound(len: nat)
    ensures
        chunk_count(len) <= len,
{
    if len > 0 {
        let size = chunk_size(len);
        assert(0 < size);
        assert((len - 1) / size as int <= len - 1) by (nonlinear_arith)
            requires
                0 < size,
                0 < len,
        ;
    }
}

/// A chunk starts inside the contents, and every chunk but the last ends
/// inside them.
proof fn lemma_chunk_start(len: nat, i: int)
    requires
        0 <= i < chunk_count(len),
    ensures
        0 < chunk_size(len),
        i * chunk_size(len) < len,
        i + 1 < chunk_count(len) ==> i * chunk_size(len) + chunk_size(len) < len,
{
    let size = chunk_size(len) as int;
    assert(0 < size);
    let q = (len - 1) / size;
    assert(q * size <= len - 1) by (nonlinear_arith)
        requires
            q == (len - 1) / size,
            0 < size,
            0 < len,
    ;
    assert(i * size <= q * size) by (nonlinear_arith)
        requires
            0 <= i <= q,
            0 < size,
    ;
    if i + 1 < chunk_count(len) {
        assert(i * size + size <= q * size) by (nonlinear_arith)
            requires
                0 <= i,
                i + 1 <= q,
                0 < size,
        ;
    }
}

/// The chunks are none of them empty and all but the last of one size, and
/// each is the run of the contents that starts where the one before ended.
pub proof fn lemma_chunks_shape(contents: Seq<u8>, i: int)
    requires
        0 <= i < chunk_count(contents.len()),
    ensures
        chunks_of(contents).len() == chunk_count(contents.len()),
        chunks_of(contents)[i].len() > 0,
        chunks_of(contents)[i].len() <= chunk_size(contents.len()),
        i + 1 < chunk_count(contents.len()) ==> chunks_of(contents)[i].len() == chunk_size(
            contents.len(),
        ),
        chunks_of(contents)[i] == contents.subrange(
            i * chunk_size(contents.len()),
            i * chunk_size(contents.len()) + chunks_of(contents)[i].len(),
        ),
{
    lemma_chunk_start(contents.len(), i);
}

/// While whole chunks lie behind and bytes lie ahead, fewer chunks than the
/// count are done; the chunk that reaches the end is the last.
proof fn lemma_chunk_progress(len: nat, size: nat, done: nat)
    requires
        0 < len,
        size == chunk_size(len),
        done * size < len,
    ensures
        0 < size,
        done < chunk_count(len),
        done * size + size >= len ==> done + 1 == chunk_count(len),
        done * size + size == (done + 1) * size,
{
    assert(0 < size);
    assert(done * size + size == (done + 1) * size) by (nonlinear_arith);
    let q = (len - 1) / size as int;
    assert(q * size <= len - 1 < q * size + size) by (nonlinear_arith)
        requires
            q == (len - 1) / size as int,
            0 < size,
            0 < len,
    ;
    assert(done <= q) by (nonlinear_arith)
        requires
            done * size <= len - 1,
            len - 1 < q * size + size,
            0 < size,
    ;
    if done * size + size >= len {
        assert(q <= done) by (nonlinear_arith)
            requires
                q * size <= len - 1,
                len - 1 < done * size + size,
                0 < size,
        ;
    }
}

/// Feeds `contents` to the compressor in chunks, with one report before each
/// chunk. It succeeds exactly where the compressor takes in every chunk;
/// the compressor is then in the state that follows them, and has taken in
/// exactly `contents` after what it had. It stops at the first chunk that
/// is refused, and the reports end with that chunk's.
pub fn encode_in_chunks<F: Fn(UpdateStatus)>(
    stream: Stream,
    contents: &[u8],
    log: &mut Vec<UpdateStatus>,
    observe: &F,
) -> (r: Result<Stream, Error>)
    requires
        forall|u: UpdateStatus| observe.requires((u,)),
    ensures
        reports(final(log)@) == reports(old(log)@) + chunk_reports(
            stream.driver(),
            chunk_count(contents@.len()) as u64,
            fed_chunks(stream, contents@),
        ),
        match r {
            Ok(fed) => {
                &&& stream.accepts_all(chunks_of(contents@))
                &&& fed == stream.after_all(chunks_of(contents@))
                &&& fed.driver() == stream.driver()
                &&& fed.taken() == stream.taken() + contents@
            },
            Err(e) => e is CodecFailure && !stream.accepts_all(chunks_of(contents@)),
        },
{
    let len: usize = contents.len();
    proof {
        lemma_chunk_count_bound(len as nat);
    }
    let size: usize = if len / 4096 == 0 {
        len
    } else {
        len / 4096
    };
    let count: u64 = if len == 0 {
        0
    } else {
        ((len - 1) / size + 1) as u64
    };
    let ghost driver = stream.driver();
    let ghost before = reports(log@);
    let ghost chunks = chunks_of(contents@);
    let extension = stream.extension();
    record(
        log,
        observe,
        UpdateStatus::with_detail(join3("Compressing (", extension.as_str(), ")")),
    );
    proof {
        assert(reports(log@) =~= before + chunk_reports(driver, count, 0));
        assert(chunks.take(0) =~= Seq::<Seq<u8>>::empty());
    }
    let ghost taken = stream.taken();
    let mut current = stream;
    let mut start: usize = 0;
    let mut done: usize = 0;
    while start < len
        invariant
            forall|u: UpdateStatus| observe.requires((u,)),
            len == contents@.len(),
            size == chunk_size(len as nat),
            count == chunk_count(len as nat),
            chunks == chunks_of(contents@),
            chunks.len() == count,
            start <= len,
            start < len ==> start == done * size,
            start == len ==> done == count,
            done <= count,
            driver == stream.driver(),
            taken == stream.taken(),
            before == reports(old(log)@),
            current.driver() == driver,
            current.taken() == taken + contents@.subrange(0, start as int),
            current == stream.after_all(chunks.take(done as int)),
            stream.accepted(chunks.take(done as int)) == done,
            reports(log@) == before + chunk_reports(driver, count, done as nat),
        decreases len - start,
    {
        proof {
            lemma_chunk_progress(len as nat, size as nat, done as nat);
        }
        let end: usize = if size >= len - start {
            len
        } else {
            start + size
        };
        let ghost so_far = reports(log@);
        record(
            log,
            observe,
            UpdateStatus { brief: None, detail: None, increment: Some(1), total: Some(count) },
        );
        proof {
            assert(reports(log@) =~= so_far.push(chunk_report(count)));
            assert(so_far.push(chunk_report(count)) =~= before + chunk_reports(
                driver,
                count,
                (done + 1) as nat,
            ));
            assert(chunks[done as int] == contents@.subrange(start as int, end as int));
            assert(chunks.take(done + 1).drop_last() =~= chunks.take(done as int));
            assert(chunks.take(done + 1).last() == chunks[done as int]);
        }
        match current.write_all(slice_subrange(contents, start, end)) {
            Ok(fed) => {
                proof {
                    assert(contents@.subrange(0, start as int) + contents@.subrange(
                        start as int,
                        end as int,
                    ) =~= contents@.subrange(0, end as int));
                }
                current = fed;
            },
            Err(e) => {
                proof {
                    lemma_refused_stays(stream, chunks, done as int, chunks.len() as int);
                    assert(chunks.take(chunks.len() as int) =~= chunks);
                }
                return Err(e);
            },
        }
        start = end;
        done = done + 1;
    }
    proof {
        assert(contents@.subrange(0, len as int) =~= contents@);
        assert(chunks.take(done as int) =~= chunks);
    }
    Ok(current)
}

/// How a finished container becomes the output file.
pub enum Finish {
    /// The zip archive is in the output file already; its writer is closed.
    CloseZip,
    /// The compressed tar stream is written to the output file.
    WriteFile { bytes: Vec<u8> },
    /// The tar stream is written to a file at `temporary_tar_path`, which the
    /// 7z codec then compresses into the output file.
    SevenZ { temporary_tar_path: String, tar_bytes: Vec<u8> },
}

/// A finished archive whose content hash has not been taken yet.
pub struct Digestable {
    path: String,
}

/// A finished archive with its content hash.
pub struct Digested {
    pub sha256: String,
}

/// The report that opens the hashing of a file.
pub open spec fn digesting_report() -> UpdateStatusView {
    UpdateStatusView {
        brief: None,
        detail: Some("Digesting..."@),
        increment: None,
        total: Some(200u64),
    }
}

/// The report that opens the hashing of a file.
pub fn digesting_status() -> (r: UpdateStatus)
    ensures
        r@ == digesting_report(),
{
    UpdateStatus {
        brief: None,
        detail: Some(String::from_str("Digesting...")),
        increment: None,
        total: Some(200),
    }
}

impl Digestable {
    /// The path of the archive's file.
    pub closed spec fn path_text(self) -> Seq<char> {
        self.path@
    }

    /// The path of the archive's file.
    pub fn path(&self) -> (r: String)
        ensures
            r@ == self.path_text(),
    {
        self.path.clone()
    }

    /// The content hash of the archive, from the bytes of its file.
    pub fn digest(self, contents: &[u8]) -> (r: Digested)
        ensures
            r.sha256@ == sha256_hex(contents@),
            is_digest_text(r.sha256@),
    {
        Digested { sha256: sha256_digest(contents) }
    }
}

/// What the compression of a 7z archive reports at its start.
pub open spec fn seven_z_report() -> UpdateStatusView {
    UpdateStatusView {
        brief: None,
        detail: Some("Compressing ("@ + Driver::SevenZ.extension_text() + ")"@),
        increment: None,
        total: Some(200u64),
    }
}

/// The finished archive and what is left to do for its file.
pub struct Compressed {
    pub finish: Finish,
    pub digestable: Digestable,
}

/// An archive that is being written.
pub struct Encoder {
    driver: Driver,
    output_directory: String,
    output_filename: String,
    archiver: Option<TarBuilder>,
}

impl Encoder {
    /// The format of the archive.
    pub closed spec fn driver_spec(self) -> Driver {
        self.driver
    }

    /// The directory that the archive is written to.
    pub closed spec fn directory_text(self) -> Seq<char> {
        self.output_directory@
    }

    /// The name of the archive's file.
    pub closed spec fn filename_text(self) -> Seq<char> {
        self.output_filename@
    }

    /// The encoder holds a tar stream exactly where its format is built on
    /// one.
    pub closed spec fn well_formed(self) -> bool {
        self.archiver.is_some() == self.driver.is_tar_backed()
    }

    /// The entries that the encoder's tar stream has taken, in order; none
    /// where the format has no tar stream.
    pub closed spec fn entries(self) -> Seq<TarEntry> {
        match self.archiver {
            Some(builder) => tar_entries(builder),
            None => Seq::empty(),
        }
    }

    /// The bytes of the encoder's tar stream, where the format has one and
    /// it can be ended.
    pub closed spec fn tar_bytes(self) -> Option<Seq<u8>> {
        match self.archiver {
            Some(builder) => tar_stream(builder),
            None => None,
        }
    }

    /// The path of the archive's file.
    pub open spec fn output_path_text(self) -> Seq<char> {
        joined(self.directory_text(), self.filename_text())
    }

    /// The path of `output_filename` in `output_directory`.
    pub fn get_output_file_path(output_directory: &str, output_filename: &str) -> (r: String)
        ensures
            r@ == joined(output_directory@, output_filename@),
    {
        join_path(output_directory, output_filename)
    }

    /// The path of the archive's file.
    pub fn get_encoder_output_file_path(&self) -> (r: String)
        ensures
            r@ == self.output_path_text(),
    {
        Self::get_output_file_path(self.output_directory.as_str(), self.output_filename.as_str())
    }

    /// The format of the archive.
    pub fn driver(&self) -> (r: Driver)
        ensures
            r == self.driver_spec(),
    {
        self.driver
    }

    /// An encoder for the file `output_filename` in `output_directory`. The
    /// suffix of the name selects the format; a name that selects none is
    /// refused.
    pub fn new(output_directory: &str, output_filename: &str) -> (r: Result<Encoder, Error>)
        ensures
            match r {
                Ok(encoder) => {
                    &&& driver_of_filename(output_filename@) == Some(encoder.driver_spec())
                    &&& encoder.directory_text() == output_directory@
                    &&& encoder.filename_text() == output_filename@
                    &&& encoder.well_formed()
                    &&& encoder.entries() == Seq::<TarEntry>::empty()
                },
                Err(Error::UnsupportedFormat { filename }) => {
                    &&& driver_of_filename(output_filename@).is_none()
                    &&& filename@ == output_filename@
                },
                Err(_) => false,
            },
    {
        match Driver::from_filename(output_filename) {
            None => Err(Error::UnsupportedFormat { filename: String::from_str(output_filename) }),
            Some(driver) => {
                let archiver = if driver.uses_tar() {
                    Some(tar_new())
                } else {
                    None
                };
                Ok(
                    Encoder {
                        driver,
                        output_directory: String::from_str(output_directory),
                        output_filename: String::from_str(output_filename),
                        archiver,
                    },
                )
            },
        }
    }

    /// The container that takes the entries: for zip the output file itself,
    /// opened at once; for every other format a tar stream in memory.
    pub fn container(&self) -> (r: Container)
        ensures
            match r {
                Container::Zip { path } => {
                    !self.driver_spec().is_tar_backed() && path@ == self.output_path_text()
                },
                Container::Tar => self.driver_spec().is_tar_backed(),
            },
    {
        if self.driver.uses_tar() {
            Container::Tar
        } else {
            Container::Zip { path: self.get_encoder_output_file_path() }
        }
    }

    fn step(&self, archive_path: &str, file_path: &str, is_symlink: bool) -> (r: AddStep)
        ensures
            r@ == step_for(self.driver_spec(), archive_path@, file_path@, is_symlink),
    {
        let archive_path = String::from_str(archive_path);
        let file_path = String::from_str(file_path);
        if !self.driver.uses_tar() {
            AddStep::ZipFile {
                archive_path,
                file_path,
                deflated: true,
                unix_permissions: ZIP_UNIX_PERMISSIONS,
            }
        } else if is_symlink {
            AddStep::TarSymlink { archive_path, file_path }
        } else {
            AddStep::TarFile { archive_path, file_path }
        }
    }

    /// What is done with the file at `file_path` to have it in the archive
    /// under `archive_path`, and the report that names it.
    pub fn add_file(&self, archive_path: &str, file_path: &str, is_symlink: bool) -> (r: PlannedAdd)
        ensures
            r.report@ == file_report(archive_path@),
            r.step@ == step_for(self.driver_spec(), archive_path@, file_path@, is_symlink),
    {
        let report = UpdateStatus {
            brief: None,
            detail: Some(String::from_str(archive_path)),
            increment: Some(1),
            total: None,
        };
        PlannedAdd { report, step: self.step(archive_path, file_path, is_symlink) }
    }

    /// Puts a symbolic link to `target` into the tar stream, at
    /// `archive_path`. It succeeds exactly where the encoder has a tar
    /// stream and the stream takes the path and the target.
    pub fn append_symlink(&mut self, archive_path: &str, target: &str) -> (r: Result<(), Error>)
        requires
            old(self).well_formed(),
        ensures
            final(self).well_formed(),
            final(self).driver_spec() == old(self).driver_spec(),
            final(self).directory_text() == old(self).directory_text(),
            final(self).filename_text() == old(self).filename_text(),
            match r {
                Ok(()) => {
                    &&& old(self).driver_spec().is_tar_backed()
                    &&& tar_takes(archive_path@, Some(target@))
                    &&& final(self).entries() == old(self).entries().push(
                        link_entry(archive_path@, target@),
                    )
                },
                Err(Error::UnsupportedFormat { filename }) => {
                    &&& !old(self).driver_spec().is_tar_backed()
                    &&& filename@ == old(self).filename_text()
                    &&& final(self).entries() == old(self).entries()
                },
                Err(Error::CodecFailure { .. }) => {
                    &&& old(self).driver_spec().is_tar_backed()
                    &&& !tar_takes(archive_path@, Some(target@))
                },
                Err(_) => false,
            },
    {
        match &mut self.archiver {
            None => Err(Error::UnsupportedFormat { filename: self.output_filename.clone() }),
            Some(builder) => match tar_append_symlink(builder, archive_path, target) {
                Ok(()) => Ok(()),
                Err(e) => Err(codec_failure(&e)),
            },
        }
    }

    /// Puts a file with the content `contents` into the tar stream, at
    /// `archive_path`. It succeeds exactly where the encoder has a tar
    /// stream and the stream takes the path.
    pub fn append_file(&mut self, archive_path: &str, contents: &[u8], meta: FileMeta) -> (r: Result<
        (),
        Error,
    >)
        requires
            old(self).well_formed(),
        ensures
            final(self).well_formed(),
            final(self).driver_spec() == old(self).driver_spec(),
            final(self).directory_text() == old(self).directory_text(),
            final(self).filename_text() == old(self).filename_text(),
            match r {
                Ok(()) => {
                    &&& old(self).driver_spec().is_tar_backed()
                    &&& tar_takes(archive_path@, None)
                    &&& final(self).entries() == old(self).entries().push(
                        file_entry(archive_path@, contents@),
                    )
                },
                Err(Error::UnsupportedFormat { filename }) => {
                    &&& !old(self).driver_spec().is_tar_backed()
                    &&& filename@ == old(self).filename_text()
                    &&& final(self).entries() == old(self).entries()
                },
                Err(Error::CodecFailure { .. }) => {
                    &&& old(self).driver_spec().is_tar_backed()
                    &&& !tar_takes(archive_path@, None)
                },
                Err(_) => false,
            },
    {
        match &mut self.archiver {
            None => Err(Error::UnsupportedFormat { filename: self.output_filename.clone() }),
            Some(builder) => match tar_append_file(builder, archive_path, contents, meta) {
                Ok(()) => Ok(()),
                Err(e) => Err(codec_failure(&e)),
            },
        }
    }

    /// What is done with `entries`, in their order; `is_symlink` flags those
    /// that are links. Each entry is reported with its path in the archive,
    /// as one step of as many as there are entries, so the steps that are
    /// reported add up to the total that is declared.
    pub fn add_entries(&self, entries: &[Entry], is_symlink: &[bool]) -> (plan: EntriesPlan)
        ensures
            plan.opening@ == (UpdateStatusView {
                brief: None,
                detail: Some("Archiving... ("@ + self.driver_spec().extension_text() + ")"@),
                increment: None,
                total: None,
            }),
            plan.closing@ == (UpdateStatusView {
                brief: None,
                detail: Some("..."@),
                increment: None,
                total: None,
            }),
            plan.adds@.len() == entries@.len(),
            forall|i: int|
                0 <= i < entries@.len() ==> {
                    &&& (#[trigger] plan.adds@[i]).report@ == entry_report(
                        entries@[i].archive_path@,
                        entries@.len() as u64,
                    )
                    &&& plan.adds@[i].step@ == step_for(
                        self.driver_spec(),
                        entries@[i].archive_path@,
                        entries@[i].file_path@,
                        flagged(is_symlink@, i),
                    )
                },
            cumulative(add_reports(plan.adds@)) == entries@.len(),
            declares_only(add_reports(plan.adds@), entries@.len() as u64),
    {
        let extension = self.driver.extension();
        let opening = UpdateStatus::with_detail(join3("Archiving... (", extension.as_str(), ")"));
        let total: u64 = entries.len() as u64;
        let mut adds: Vec<PlannedAdd> = Vec::new();
        let mut i: usize = 0;
        while i < entries.len()
            invariant
                i <= entries@.len(),
                total == entries@.len() as u64,
                adds@.len() == i,
                forall|k: int|
                    0 <= k < i ==> {
                        &&& (#[trigger] adds@[k]).report@ == entry_report(
                            entries@[k].archive_path@,
                            total,
                        )
                        &&& adds@[k].step@ == step_for(
                            self.driver_spec(),
                            entries@[k].archive_path@,
                            entries@[k].file_path@,
                            flagged(is_symlink@, k),
                        )
                    },
                cumulative(add_reports(adds@)) == i,
                declares_only(add_reports(adds@), total),
            decreases entries@.len() - i,
        {
            let entry = &entries[i];
            let link = i < is_symlink.len() && is_symlink[i];
            let report = UpdateStatus {
                brief: None,
                detail: Some(entry.archive_path.clone()),
                increment: Some(1),
                total: Some(total),
            };
            let step = self.step(entry.archive_path.as_str(), entry.file_path.as_str(), link);
            let ghost before = adds@;
            adds.push(PlannedAdd { report, step });
            proof {
                assert(add_reports(adds@) =~= add_reports(before).push(report@));
                lemma_cumulative_push(add_reports(before), report@);
            }
            i += 1;
        }
        let closing = UpdateStatus::with_detail(String::from_str("..."));
        EntriesPlan { opening, adds, closing }
    }
    /// What finishing the archive reports: nothing for zip, and nothing
    /// where the tar stream cannot be ended; for 7z the report that opens
    /// the compression; for gzip, bzip2 and xz that report and one for each
    /// chunk that is handed to the compressor.
    pub open spec fn compress_reports(self) -> Seq<UpdateStatusView> {
        if self.driver_spec() == Driver::Zip || self.tar_bytes().is_none() {
            Seq::empty()
        } else if self.driver_spec() == Driver::SevenZ {
            seq![seven_z_report()]
        } else {
            chunk_reports(
                self.driver_spec(),
                chunk_count(self.tar_bytes().unwrap().len()) as u64,
                fed_chunks(fresh(self.driver_spec()).unwrap(), self.tar_bytes().unwrap()),
            )
        }
    }

    /// Whether the archive can be finished: always for zip; for 7z where the
    /// tar stream can be ended; for gzip, bzip2 and xz where, besides, a
    /// fresh compressor takes in every chunk of the tar stream and can be
    /// ended.
    pub open spec fn can_compress(self) -> bool {
        ||| self.driver_spec() == Driver::Zip
        ||| self.tar_bytes().is_some() && self.driver_spec() == Driver::SevenZ
        ||| self.tar_bytes().is_some() && compressed(
            self.driver_spec(),
            self.tar_bytes().unwrap(),
        ).is_some()
    }

    /// Finishes the archive. A zip archive only has its writer closed. For
    /// every other format the tar stream is ended. For gzip, bzip2 and xz its
    /// bytes go through a fresh compressor in chunks, and the compressor's
    /// output is what the output file takes. For 7z its bytes go to a file
    /// beside the output file, for the codec to compress.
    pub fn compress<F: Fn(UpdateStatus)>(self, log: &mut Vec<UpdateStatus>, observe: &F) -> (r:
        Result<Compressed, Error>)
        requires
            self.well_formed(),
            forall|u: UpdateStatus| observe.requires((u,)),
        ensures
            r is Ok <==> self.can_compress(),
            reports(final(log)@) == reports(old(log)@) + self.compress_reports(),
            match r {
                Ok(done) => {
                    &&& done.digestable.path_text() == self.output_path_text()
                    &&& match done.finish {
                        Finish::CloseZip => self.driver_spec() == Driver::Zip,
                        Finish::WriteFile { bytes } => {
                            &&& has_stream(self.driver_spec())
                            &&& compressed(self.driver_spec(), self.tar_bytes().unwrap()) == Some(
                                bytes@,
                            )
                        },
                        Finish::SevenZ { temporary_tar_path, tar_bytes } => {
                            &&& self.driver_spec() == Driver::SevenZ
                            &&& temporary_tar_path@ == joined(
                                self.directory_text(),
                                seven_z_tar_filename_text(),
                            )
                            &&& self.tar_bytes() == Some(tar_bytes@)
                        },
                    }
                },
                Err(e) => e is CodecFailure,
            },
    {
        let ghost before = reports(log@);
        proof {
            assert(before + Seq::<UpdateStatusView>::empty() =~= before);
        }
        let digestable = Digestable { path: self.get_encoder_output_file_path() };
        let contents = match self.archiver {
            None => {
                return Ok(Compressed { finish: Finish::CloseZip, digestable });
            },
            Some(builder) => match tar_into_inner(builder) {
                Ok(contents) => contents,
                Err(e) => {
                    return Err(codec_failure(&e));
                },
            },
        };
        match Stream::open(self.driver) {
            None => {
                let extension = self.driver.extension();
                let report = UpdateStatus {
                    brief: None,
                    detail: Some(join3("Compressing (", extension.as_str(), ")")),
                    increment: None,
                    total: Some(200),
                };
                record(log, observe, report);
                proof {
                    assert(reports(log@) =~= before + seq![seven_z_report()]);
                }
                let name = seven_z_tar_filename();
                let temporary_tar_path = join_path(self.output_directory.as_str(), name.as_str());
                Ok(
                    Compressed {
                        finish: Finish::SevenZ { temporary_tar_path, tar_bytes: contents },
                        digestable,
                    },
                )
            },
            Some(stream) => {
                let fed = match encode_in_chunks(stream, contents.as_slice(), log, observe) {
                    Ok(fed) => fed,
                    Err(e) => {
                        return Err(e);
                    },
                };
                match fed.finish() {
                    Ok(bytes) => Ok(Compressed { finish: Finish::WriteFile { bytes }, digestable }),
                    Err(e) => Err(e),
                }
            },
        }
    }
}

} // verus!
