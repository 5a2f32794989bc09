//! The tar stream that holds the entries of an archive while it is built, in
//! memory, by the `tar` crate.

use vstd::prelude::*;

verus! {

/// What a tar stream records of a file besides its content.
#[derive(Debug, Clone, Copy, PartialEq, Eq)]
pub struct FileMeta {
    pub mode: u32,
    pub mtime: u64,
    pub uid: u64,
    pub gid: u64,
}

impl FileMeta {
    /// What a tar stream records of a file, from what the file system says
    /// of it. A time of change before 1970 is recorded as 1970.
    pub fn from_stat(mode: u32, mtime_seconds: i64, uid: u32, gid: u32) -> (r: FileMeta)
        ensures
            r.mode == mode,
            r.mtime == (if mtime_seconds < 0 {
                0
            } else {
                mtime_seconds as u64
            }),
            r.uid == uid,
            r.gid == gid,
    {
        let mtime: u64 = if mtime_seconds < 0 {
            0
        } else {
            mtime_seconds as u64
        };
        FileMeta { mode, mtime, uid: uid as u64, gid: gid as u64 }
    }
}

/// A builder of the `tar` crate that writes into memory.
#[verifier::external_body]
pub struct TarBuilder {
    inner: tar::Builder<Vec<u8>>,
}

/// An entry as it was handed to a builder: its path in the archive; for a
/// link, its target; and its content, which is empty for a link.
pub type TarEntry = (Seq<char>, Option<Seq<char>>, Seq<u8>);

/// The entries that a builder has taken, in the order in which they came.
pub uninterp spec fn tar_entries(builder: TarBuilder) -> Seq<
    (Seq<char>, Option<Seq<char>>, Seq<u8>),
>;

/// The bytes that ending a builder in this state hands out, where it
/// succeeds.
pub uninterp spec fn tar_stream(builder: TarBuilder) -> Option<Seq<u8>>;

/// Whether a builder takes an entry at a path, with the target of a link or
/// without one for a file. The builder writes into memory, so only the path
/// and the target decide.
pub uninterp spec fn tar_takes(archive_path: Seq<char>, target: Option<Seq<char>>) -> bool;

/// The entry of a symbolic link.
pub open spec fn link_entry(archive_path: Seq<char>, target: Seq<char>) -> TarEntry {
    (archive_path, Some(target), Seq::empty())
}

/// The entry of a file with its content.
pub open spec fn file_entry(archive_path: Seq<char>, contents: Seq<u8>) -> TarEntry {
    (archive_path, None, contents)
}

/// Calls `tar::Builder::new` on an empty buffer. Trusted: the new builder has
/// taken no entry.
#[verifier::external_body]
pub(crate) fn tar_new() -> (r: TarBuilder)
    ensures
        tar_entries(r) == Seq::<TarEntry>::empty(),
{
    TarBuilder { inner: tar::Builder::new(Vec::new()) }
}

/// Calls `tar::Builder::append_link` with a fresh GNU header of the type of a
/// symbolic link and of size zero. Trusted: whether it succeeds depends on
/// the path and the target alone; where it does, the builder has taken one
/// more entry, a link at `archive_path` to `target`.
#[verifier::external_body]
pub(crate) fn tar_append_symlink(builder: &mut TarBuilder, archive_path: &str, target: &str) -> (r:
    Result<(), std::io::Error>)
    ensures
        r.is_ok() == tar_takes(archive_path@, Some(target@)),
        r.is_ok() ==> tar_entries(*final(builder)) == tar_entries(*old(builder)).push(
            link_entry(archive_path@, target@),
        ),
{
    let mut header = tar::Header::new_gnu();
    header.set_entry_type(tar::EntryType::Symlink);
    header.set_size(0);
    builder.inner.append_link(&mut header, archive_path, target)
}

/// Calls `tar::Builder::append_data` with a fresh GNU header of the type of
/// a regular file, which carries the size of `contents` and the values of
/// `meta`. Trusted: whether it succeeds depends on the path alone; where it
/// does, the builder has taken one more entry, a file at `archive_path` with
/// the content `contents`.
#[verifier::external_body]
pub(crate) fn tar_append_file(
    builder: &mut TarBuilder,
    archive_path: &str,
    contents: &[u8],
    meta: FileMeta,
) -> (r: Result<(), std::io::Error>)
    ensures
        r.is_ok() == tar_takes(archive_path@, None),
        r.is_ok() ==> tar_entries(*final(builder)) == tar_entries(*old(builder)).push(
            file_entry(archive_path@, contents@),
        ),
{
    let mut header = tar::Header::new_gnu();
    header.set_entry_type(tar::EntryType::Regular);
    header.set_size(contents.len() as u64);
    header.set_mode(meta.mode);
    header.set_mtime(meta.mtime);
    header.set_uid(meta.uid);
    header.set_gid(meta.gid);
    builder.inner.append_data(&mut header, archive_path, contents)
}

/// Calls `tar::Builder::into_inner`, which ends the stream and hands out
/// what was written. Trusted: whether it succeeds, and with which bytes,
/// depends on the builder's state alone.
#[verifier::external_body]
pub(crate) fn tar_into_inner(builder: TarBuilder) -> (r: Result<Vec<u8>, std::io::Error>)
    ensures
        match r {
            Ok(bytes) => tar_stream(builder) == Some(bytes@),
            Err(_) => tar_stream(builder).is_none(),
        },
{
    builder.inner.into_inner()
}

} // verus!
