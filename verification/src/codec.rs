//! The stream codecs, run in memory: compressors that take their input in
//! chunks, decompressors that take it whole, and the content hash.

use vstd::prelude::*;
use crate::driver::Driver;
use crate::error::Error;

verus! {

/// `std::io::Error`, which the codecs fail with. Trusted: the type is taken
/// as it is, and nothing is known of a value of it.
#[verifier::external_type_specification]
#[verifier::external_body]
pub struct ExIoError(std::io::Error);

/// A gzip compressor of the `flate2` crate that writes into memory.
#[verifier::external_body]
pub struct GzipStream {
    inner: flate2::write::GzEncoder<Vec<u8>>,
}

/// A bzip2 compressor of the `bzip2` crate that writes into memory.
#[verifier::external_body]
pub struct Bzip2Stream {
    inner: bzip2::write::BzEncoder<Vec<u8>>,
}

/// An xz compressor of the `xz2` crate that writes into memory.
#[verifier::external_body]
pub struct XzStream {
    inner: xz2::write::XzEncoder<Vec<u8>>,
}

/// The bytes that a gzip compressor has taken in so far.
pub uninterp spec fn gzip_taken(stream: GzipStream) -> Seq<u8>;

/// The bytes that a bzip2 compressor has taken in so far.
pub uninterp spec fn bzip2_taken(stream: Bzip2Stream) -> Seq<u8>;

/// The bytes that an xz compressor has taken in so far.
pub uninterp spec fn xz_taken(stream: XzStream) -> Seq<u8>;

/// The gzip compressor that is made over a buffer, at the default level.
pub uninterp spec fn gzip_fresh(sink: Seq<u8>) -> GzipStream;

/// The bzip2 compressor that is made over a buffer, at the default level.
pub uninterp spec fn bzip2_fresh(sink: Seq<u8>) -> Bzip2Stream;

/// The xz compressor that is made over a buffer, at a level.
pub uninterp spec fn xz_fresh(sink: Seq<u8>, level: u32) -> XzStream;

/// Whether a gzip compressor in this state takes in the whole of a chunk.
pub uninterp spec fn gzip_accepts(stream: GzipStream, chunk: Seq<u8>) -> bool;

/// The gzip compressor as it is after it has taken in a chunk.
pub uninterp spec fn gzip_after(stream: GzipStream, chunk: Seq<u8>) -> GzipStream;

/// The bzip2 compressor as it is after it has taken in a chunk.
pub uninterp spec fn bzip2_after(stream: Bzip2Stream, chunk: Seq<u8>) -> Bzip2Stream;

/// The xz compressor as it is after it has taken in a chunk.
pub uninterp spec fn xz_after(stream: XzStream, chunk: Seq<u8>) -> XzStream;

/// The bytes that ending a gzip compressor in this state hands out, where
/// it succeeds.
pub uninterp spec fn gzip_output(stream: GzipStream) -> Option<Seq<u8>>;

/// The bytes that ending a bzip2 compressor in this state hands out, where
/// it succeeds.
pub uninterp spec fn bzip2_output(stream: Bzip2Stream) -> Option<Seq<u8>>;

/// The bytes that ending an xz compressor in this state hands out, where it
/// succeeds.
pub uninterp spec fn xz_output(stream: XzStream) -> Option<Seq<u8>>;

/// A gzip decompressor of the `flate2` crate that reads from memory.
#[verifier::external_body]
pub struct GzipReader {
    inner: flate2::read::GzDecoder<std::io::Cursor<Vec<u8>>>,
}

/// A bzip2 decompressor of the `bzip2` crate that reads from memory.
#[verifier::external_body]
pub struct Bzip2Reader {
    inner: bzip2::read::BzDecoder<std::io::Cursor<Vec<u8>>>,
}

/// An xz decompressor of the `xz2` crate that reads from memory.
#[verifier::external_body]
pub struct XzReader {
    inner: xz2::read::XzDecoder<std::io::Cursor<Vec<u8>>>,
}

/// The size of the buffer that a decompressor is read into.
pub const READ_SIZE: usize = 8192;

/// What reading a gzip decompressor over `data` to its end gives, in pieces
/// of `READ_SIZE` bytes, where it gets there.
pub uninterp spec fn gzip_decoded(data: Seq<u8>) -> Option<Seq<u8>>;

/// What reading a bzip2 decompressor over `data` to its end gives, in
/// pieces of `READ_SIZE` bytes, where it gets there.
pub uninterp spec fn bzip2_decoded(data: Seq<u8>) -> Option<Seq<u8>>;

/// What reading an xz decompressor over `data` to its end gives, in pieces
/// of `READ_SIZE` bytes, where it gets there.
pub uninterp spec fn xz_decoded(data: Seq<u8>) -> Option<Seq<u8>>;

/// The bytes that a gzip decompressor still hands out, read in pieces of
/// `READ_SIZE` bytes, before it reports its end or fails.
pub uninterp spec fn gzip_pending(reader: GzipReader) -> Seq<u8>;

/// The bytes that a bzip2 decompressor still hands out, read in pieces of
/// `READ_SIZE` bytes, before it reports its end or fails.
pub uninterp spec fn bzip2_pending(reader: Bzip2Reader) -> Seq<u8>;

/// The bytes that an xz decompressor still hands out, read in pieces of
/// `READ_SIZE` bytes, before it reports its end or fails.
pub uninterp spec fn xz_pending(reader: XzReader) -> Seq<u8>;

/// Whether a gzip decompressor, once it has handed out what it still has,
/// reports its end rather than a failure.
pub uninterp spec fn gzip_ends_well(reader: GzipReader) -> bool;

/// Whether a bzip2 decompressor, once it has handed out what it still has,
/// reports its end rather than a failure.
pub uninterp spec fn bzip2_ends_well(reader: Bzip2Reader) -> bool;

/// Whether an xz decompressor, once it has handed out what it still has,
/// reports its end rather than a failure.
pub uninterp spec fn xz_ends_well(reader: XzReader) -> bool;

/// What is read to the end of a decompressor that still has `pending` and
/// then ends well or not.
pub open spec fn read_to_end(pending: Seq<u8>, ends_well: bool) -> Option<Seq<u8>> {
    if ends_well {
        Some(pending)
    } else {
        None
    }
}

/// One read of a decompressor into `buffer`. A read that gives bytes gives
/// the next of those that were pending, at the start of the buffer, and
/// leaves the rest pending. A read that gives none finds nothing pending and
/// the stream at its end. A read that fails finds nothing pending and the
/// stream not at its end.
pub open spec fn is_read(
    r: Result<usize, std::io::Error>,
    buffer: Seq<u8>,
    pending: Seq<u8>,
    ends_well: bool,
    pending_after: Seq<u8>,
    ends_well_after: bool,
) -> bool {
    match r {
        Ok(n) => {
            &&& n <= buffer.len()
            &&& n <= pending.len()
            &&& buffer.take(n as int) == pending.take(n as int)
            &&& pending_after == pending.skip(n as int)
            &&& ends_well_after == ends_well
            &&& n == 0 ==> pending.len() == 0 && ends_well
        },
        Err(_) => pending.len() == 0 && !ends_well,
    }
}

/// The SHA-256 hash of a sequence of bytes, in hexadecimal digits.
pub uninterp spec fn sha256_hex(data: Seq<u8>) -> Seq<char>;

/// Calls `std::io::Error::to_string`. Trusted; nothing is claimed of the text.
#[verifier::external_body]
fn io_error_text(error: &std::io::Error) -> (r: String) {
    error.to_string()
}

/// Calls `flate2::write::GzEncoder::new` on the buffer, at the default
/// level. Trusted: the new compressor is the one that the buffer gives, and
/// has taken in nothing.
#[verifier::external_body]
fn gzip_open(sink: Vec<u8>) -> (r: GzipStream)
    ensures
        r == gzip_fresh(sink@),
        gzip_taken(r) == Seq::<u8>::empty(),
{
    GzipStream { inner: flate2::write::GzEncoder::new(sink, flate2::Compression::default()) }
}

/// Calls `write_all` of `flate2::write::GzEncoder`. Trusted: whether it
/// succeeds depends on the compressor's state and the chunk alone; where it
/// does, the compressor is in the state that follows, and has taken in the
/// whole chunk after what it had.
#[verifier::external_body]
fn gzip_write_all(stream: &mut GzipStream, chunk: &[u8]) -> (r: Result<(), std::io::Error>)
    ensures
        r.is_ok() == gzip_accepts(*old(stream), chunk@),
        r.is_ok() ==> *final(stream) == gzip_after(*old(stream), chunk@),
        r.is_ok() ==> gzip_taken(*final(stream)) == gzip_taken(*old(stream)) + chunk@,
{
    std::io::Write::write_all(&mut stream.inner, chunk)
}

/// Calls `flate2::write::GzEncoder::finish`, which ends the stream and hands
/// out what was written. Trusted: whether it succeeds, and with which bytes,
/// depends on the compressor's state alone.
#[verifier::external_body]
fn gzip_finish(stream: GzipStream) -> (r: Result<Vec<u8>, std::io::Error>)
    ensures
        match r {
            Ok(bytes) => gzip_output(stream) == Some(bytes@),
            Err(_) => gzip_output(stream).is_none(),
        },
{
    stream.inner.finish()
}

/// Calls `bzip2::write::BzEncoder::new` on the buffer, at the default
/// level. Trusted: the new compressor is the one that the buffer gives, and
/// has taken in nothing.
#[verifier::external_body]
fn bzip2_open(sink: Vec<u8>) -> (r: Bzip2Stream)
    ensures
        r == bzip2_fresh(sink@),
        bzip2_taken(r) == Seq::<u8>::empty(),
{
    Bzip2Stream { inner: bzip2::write::BzEncoder::new(sink, bzip2::Compression::default()) }
}

/// Calls `write_all` of `bzip2::write::BzEncoder`. Trusted: it succeeds,
/// since a write into a buffer in memory cannot fail and the compressor
/// gives no error back; the compressor is then in the state that follows,
/// and has taken in the whole chunk after what it had.
#[verifier::external_body]
fn bzip2_write_all(stream: &mut Bzip2Stream, chunk: &[u8]) -> (r: Result<(), std::io::Error>)
    ensures
        r.is_ok(),
        *final(stream) == bzip2_after(*old(stream), chunk@),
        bzip2_taken(*final(stream)) == bzip2_taken(*old(stream)) + chunk@,
{
    std::io::Write::write_all(&mut stream.inner, chunk)
}

/// Calls `bzip2::write::BzEncoder::finish`, which ends the stream and hands
/// out what was written. Trusted: whether it succeeds, and with which bytes,
/// depends on the compressor's state alone.
#[verifier::external_body]
fn bzip2_finish(stream: Bzip2Stream) -> (r: Result<Vec<u8>, std::io::Error>)
    ensures
        match r {
            Ok(bytes) => bzip2_output(stream) == Some(bytes@),
            Err(_) => bzip2_output(stream).is_none(),
        },
{
    stream.inner.finish()
}

/// Calls `xz2::write::XzEncoder::new` on the buffer, at the given level,
/// which must be one of the presets 0 to 9. Trusted: the new compressor is
/// the one that the buffer and the level give, and has taken in nothing.
#[verifier::external_body]
fn xz_open(sink: Vec<u8>, level: u32) -> (r: XzStream)
    requires
        level <= 9,
    ensures
        r == xz_fresh(sink@, level),
        xz_taken(r) == Seq::<u8>::empty(),
{
    XzStream { inner: xz2::write::XzEncoder::new(sink, level) }
}

/// Calls `write_all` of `xz2::write::XzEncoder`. Trusted: it succeeds, since
/// a write into a buffer in memory cannot fail and the compressor gives no
/// error back; the compressor is then in the state that follows, and has
/// taken in the whole chunk after what it had.
#[verifier::external_body]
fn xz_write_all(stream: &mut XzStream, chunk: &[u8]) -> (r: Result<(), std::io::Error>)
    ensures
        r.is_ok(),
        *final(stream) == xz_after(*old(stream), chunk@),
        xz_taken(*final(stream)) == xz_taken(*old(stream)) + chunk@,
{
    std::io::Write::write_all(&mut stream.inner, chunk)
}

/// Calls `xz2::write::XzEncoder::finish`, which ends the stream and hands
/// out what was written. Trusted: whether it succeeds, and with which bytes,
/// depends on the compressor's state alone.
#[verifier::external_body]
fn xz_finish(stream: XzStream) -> (r: Result<Vec<u8>, std::io::Error>)
    ensures
        match r {
            Ok(bytes) => xz_output(stream) == Some(bytes@),
            Err(_) => xz_output(stream).is_none(),
        },
{
    stream.inner.finish()
}

/// Calls `flate2::read::GzDecoder::new` over the bytes. Trusted: what the new
/// decompressor has pending, and how it ends, is what reading over these
/// bytes to the end gives.
#[verifier::external_body]
fn gzip_reader(data: Vec<u8>) -> (r: GzipReader)
    ensures
        gzip_decoded(data@) == read_to_end(gzip_pending(r), gzip_ends_well(r)),
{
    GzipReader { inner: flate2::read::GzDecoder::new(std::io::Cursor::new(data)) }
}

/// Calls `read` of `flate2::read::GzDecoder` on the buffer, which must have
/// `READ_SIZE` bytes. Trusted: the buffer keeps its length, and the read is
/// one read of the decompressor as `is_read` says it.
#[verifier::external_body]
fn gzip_read(reader: &mut GzipReader, buffer: &mut Vec<u8>) -> (r: Result<usize, std::io::Error>)
    requires
        old(buffer)@.len() == READ_SIZE,
    ensures
        final(buffer)@.len() == old(buffer)@.len(),
        is_read(
            r,
            final(buffer)@,
            gzip_pending(*old(reader)),
            gzip_ends_well(*old(reader)),
            gzip_pending(*final(reader)),
            gzip_ends_well(*final(reader)),
        ),
{
    std::io::Read::read(&mut reader.inner, buffer.as_mut_slice())
}

/// Calls `bzip2::read::BzDecoder::new` over the bytes. Trusted: what the new
/// decompressor has pending, and how it ends, is what reading over these
/// bytes to the end gives.
#[verifier::external_body]
fn bzip2_reader(data: Vec<u8>) -> (r: Bzip2Reader)
    ensures
        bzip2_decoded(data@) == read_to_end(bzip2_pending(r), bzip2_ends_well(r)),
{
    Bzip2Reader { inner: bzip2::read::BzDecoder::new(std::io::Cursor::new(data)) }
}

/// Calls `read` of `bzip2::read::BzDecoder` on the buffer, which must have
/// `READ_SIZE` bytes. Trusted: the buffer keeps its length, and the read is
/// one read of the decompressor as `is_read` says it.
#[verifier::external_body]
fn bzip2_read(reader: &mut Bzip2Reader, buffer: &mut Vec<u8>) -> (r: Result<usize, std::io::Error>)
    requires
        old(buffer)@.len() == READ_SIZE,
    ensures
        final(buffer)@.len() == old(buffer)@.len(),
        is_read(
            r,
            final(buffer)@,
            bzip2_pending(*old(reader)),
            bzip2_ends_well(*old(reader)),
            bzip2_pending(*final(reader)),
            bzip2_ends_well(*final(reader)),
        ),
{
    std::io::Read::read(&mut reader.inner, buffer.as_mut_slice())
}

/// Calls `xz2::read::XzDecoder::new` over the bytes. Trusted: what the new
/// decompressor has pending, and how it ends, is what reading over these
/// bytes to the end gives.
#[verifier::external_body]
fn xz_reader(data: Vec<u8>) -> (r: XzReader)
    ensures
        xz_decoded(data@) == read_to_end(xz_pending(r), xz_ends_well(r)),
{
    XzReader { inner: xz2::read::XzDecoder::new(std::io::Cursor::new(data)) }
}

/// Calls `read` of `xz2::read::XzDecoder` on the buffer, which must have
/// `READ_SIZE` bytes. Trusted: the buffer keeps its length, and the read is
/// one read of the decompressor as `is_read` says it.
#[verifier::external_body]
fn xz_read(reader: &mut XzReader, buffer: &mut Vec<u8>) -> (r: Result<usize, std::io::Error>)
    requires
        old(buffer)@.len() == READ_SIZE,
    ensures
        final(buffer)@.len() == old(buffer)@.len(),
        is_read(
            r,
            final(buffer)@,
            xz_pending(*old(reader)),
            xz_ends_well(*old(reader)),
            xz_pending(*final(reader)),
            xz_ends_well(*final(reader)),
        ),
{
    std::io::Read::read(&mut reader.inner, buffer.as_mut_slice())
}

/// Whether a character is a digit of lower-case hexadecimal.
pub open spec fn is_lower_hex(c: char) -> bool {
    ('0' <= c && c <= '9') || ('a' <= c && c <= 'f')
}

/// Whether a text is a SHA-256 hash as it is written: 64 digits of
/// lower-case hexadecimal.
pub open spec fn is_digest_text(text: Seq<char>) -> bool {
    text.len() == 64 && forall|i: int| 0 <= i < text.len() ==> is_lower_hex(#[trigger] text[i])
}

/// Calls `sha256::digest` on the bytes. Trusted: the text is the hash of the
/// bytes, which the crate writes as 64 digits of lower-case hexadecimal.
#[verifier::external_body]
pub(crate) fn sha256_digest(data: &[u8]) -> (r: String)
    ensures
        r@ == sha256_hex(data@),
        is_digest_text(r@),
{
    sha256::digest(data)
}

/// The failure of a codec, with the words that the codec's error gives.
pub(crate) fn codec_failure(error: &std::io::Error) -> (r: Error)
    ensures
        r is CodecFailure,
{
    Error::codec(io_error_text(error))
}

/// The level at which xz archives are compressed: the highest preset.
pub const XZ_LEVEL: u32 = 9;

/// A compressor that takes the bytes of a tar stream in chunks.
pub enum Stream {
    Gzip(GzipStream),
    Bzip2(Bzip2Stream),
    Xz(XzStream),
}

/// What reading the stream decompressor of a format over `data` to its end
/// gives, where the format has one and it gets there.
pub open spec fn decoded(driver: Driver, data: Seq<u8>) -> Option<Seq<u8>> {
    match driver {
        Driver::Gzip => gzip_decoded(data),
        Driver::Bzip2 => bzip2_decoded(data),
        Driver::Xz => xz_decoded(data),
        _ => None,
    }
}

/// The compressor of a format as it is made, over an empty buffer, where the
/// format has one.
pub open spec fn fresh(driver: Driver) -> Option<Stream> {
    match driver {
        Driver::Gzip => Some(Stream::Gzip(gzip_fresh(Seq::empty()))),
        Driver::Bzip2 => Some(Stream::Bzip2(bzip2_fresh(Seq::empty()))),
        Driver::Xz => Some(Stream::Xz(xz_fresh(Seq::empty(), XZ_LEVEL))),
        _ => None,
    }
}

/// Whether a format compresses a tar stream with a stream compressor.
pub open spec fn has_stream(driver: Driver) -> bool {
    driver == Driver::Gzip || driver == Driver::Bzip2 || driver == Driver::Xz
}

impl Stream {
    /// The bytes that the compressor has taken in so far.
    pub open spec fn taken(self) -> Seq<u8> {
        match self {
            Stream::Gzip(s) => gzip_taken(s),
            Stream::Bzip2(s) => bzip2_taken(s),
            Stream::Xz(s) => xz_taken(s),
        }
    }

    /// The bytes that ending the compressor in this state hands out, where
    /// it succeeds.
    pub open spec fn output(self) -> Option<Seq<u8>> {
        match self {
            Stream::Gzip(s) => gzip_output(s),
            Stream::Bzip2(s) => bzip2_output(s),
            Stream::Xz(s) => xz_output(s),
        }
    }

    /// The format that the compressor writes.
    pub open spec fn driver(self) -> Driver {
        match self {
            Stream::Gzip(_) => Driver::Gzip,
            Stream::Bzip2(_) => Driver::Bzip2,
            Stream::Xz(_) => Driver::Xz,
        }
    }

    /// Whether the compressor in this state takes in the whole of a chunk.
    /// A bzip2 or an xz compressor always does.
    pub open spec fn accepts(self, chunk: Seq<u8>) -> bool {
        match self {
            Stream::Gzip(s) => gzip_accepts(s, chunk),
            Stream::Bzip2(_) => true,
            Stream::Xz(_) => true,
        }
    }

    /// The compressor as it is after it has taken in a chunk.
    pub open spec fn after(self, chunk: Seq<u8>) -> Stream {
        match self {
            Stream::Gzip(s) => Stream::Gzip(gzip_after(s, chunk)),
            Stream::Bzip2(s) => Stream::Bzip2(bzip2_after(s, chunk)),
            Stream::Xz(s) => Stream::Xz(xz_after(s, chunk)),
        }
    }

    /// The compressor as it is after it has taken in the chunks one by one.
    pub open spec fn after_all(self, chunks: Seq<Seq<u8>>) -> Stream
        decreases chunks.len(),
    {
        if chunks.len() == 0 {
            self
        } else {
            self.after_all(chunks.drop_last()).after(chunks.last())
        }
    }

    /// How many of the chunks the compressor takes in, one by one, before it
    /// refuses one; all of them where it refuses none.
    pub open spec fn accepted(self, chunks: Seq<Seq<u8>>) -> nat
        decreases chunks.len(),
    {
        if chunks.len() == 0 {
            0
        } else {
            let before = self.accepted(chunks.drop_last());
            if before == chunks.len() - 1 && self.after_all(chunks.drop_last()).accepts(
                chunks.last(),
            ) {
                chunks.len()
            } else {
                before
            }
        }
    }

    /// Whether the compressor takes in every one of the chunks, one by one.
    pub open spec fn accepts_all(self, chunks: Seq<Seq<u8>>) -> bool {
        self.accepted(chunks) == chunks.len()
    }

    /// The extension of the format that the compressor writes.
    pub fn extension(&self) -> (r: String)
        ensures
            r@ == self.driver().extension_text(),
    {
        match self {
            Stream::Gzip(_) => Driver::Gzip.extension(),
            Stream::Bzip2(_) => Driver::Bzip2.extension(),
            Stream::Xz(_) => Driver::Xz.extension(),
        }
    }

    /// A fresh compressor for the format, where it has one.
    pub fn open(driver: Driver) -> (r: Option<Stream>)
        ensures
            r == fresh(driver),
            r.is_some() == has_stream(driver),
            r.is_some() ==> {
                &&& r.unwrap().driver() == driver
                &&& r.unwrap().taken() == Seq::<u8>::empty()
            },
    {
        match driver {
            Driver::Gzip => Some(Stream::Gzip(gzip_open(Vec::new()))),
            Driver::Bzip2 => Some(Stream::Bzip2(bzip2_open(Vec::new()))),
            Driver::Xz => Some(Stream::Xz(xz_open(Vec::new(), XZ_LEVEL))),
            _ => None,
        }
    }

    /// Feeds one chunk to the compressor. It succeeds exactly where the
    /// compressor accepts the chunk; the compressor is then in the state
    /// that follows, and has taken in the chunk after what it had.
    pub fn write_all(self, chunk: &[u8]) -> (r: Result<Stream, Error>)
        ensures
            match r {
                Ok(stream) => {
                    &&& self.accepts(chunk@)
                    &&& stream == self.after(chunk@)
                    &&& stream.driver() == self.driver()
                    &&& stream.taken() == self.taken() + chunk@
                },
                Err(e) => e is CodecFailure && !self.accepts(chunk@),
            },
    {
        match self {
            Stream::Gzip(mut s) => match gzip_write_all(&mut s, chunk) {
                Ok(()) => Ok(Stream::Gzip(s)),
                Err(e) => Err(codec_failure(&e)),
            },
            Stream::Bzip2(mut s) => match bzip2_write_all(&mut s, chunk) {
                Ok(()) => Ok(Stream::Bzip2(s)),
                Err(e) => Err(codec_failure(&e)),
            },
            Stream::Xz(mut s) => match xz_write_all(&mut s, chunk) {
                Ok(()) => Ok(Stream::Xz(s)),
                Err(e) => Err(codec_failure(&e)),
            },
        }
    }

    /// Ends the stream and hands out the compressed bytes.
    pub fn finish(self) -> (r: Result<Vec<u8>, Error>)
        ensures
            match r {
                Ok(bytes) => self.output() == Some(bytes@),
                Err(e) => e is CodecFailure && self.output().is_none(),
            },
    {
        let done = match self {
            Stream::Gzip(s) => gzip_finish(s),
            Stream::Bzip2(s) => bzip2_finish(s),
            Stream::Xz(s) => xz_finish(s),
        };
        match done {
            Ok(bytes) => Ok(bytes),
            Err(e) => Err(codec_failure(&e)),
        }
    }
}

/// A bzip2 or an xz compressor takes in every chunk that it is handed, and a
/// compressor stays one of its format whatever it takes in.
pub proof fn lemma_accepts_all(stream: Stream, chunks: Seq<Seq<u8>>)
    ensures
        stream.after_all(chunks).driver() == stream.driver(),
        stream.driver() != Driver::Gzip ==> stream.accepts_all(chunks),
    decreases chunks.len(),
{
    if chunks.len() > 0 {
        lemma_accepts_all(stream, chunks.drop_last());
    }
}

/// Once the compressor has refused a chunk, the count of the chunks that it
/// takes in stays where it is, however many chunks follow.
pub proof fn lemma_refused_stays(stream: Stream, chunks: Seq<Seq<u8>>, k: int, j: int)
    requires
        0 <= k < j <= chunks.len(),
        stream.accepted(chunks.take(k + 1)) == k,
    ensures
        stream.accepted(chunks.take(j)) == k,
    decreases j,
{
    if j > k + 1 {
        lemma_refused_stays(stream, chunks, k, j - 1);
        assert(chunks.take(j).drop_last() =~= chunks.take(j - 1));
    }
}

/// A decompressor that hands out the bytes of a tar stream piece by piece.
pub enum Reader {
    Gzip(GzipReader),
    Bzip2(Bzip2Reader),
    Xz(XzReader),
}

impl Reader {
    /// The bytes that the decompressor still hands out, read in pieces of
    /// `READ_SIZE` bytes, before it reports its end or fails.
    pub open spec fn pending(self) -> Seq<u8> {
        match self {
            Reader::Gzip(r) => gzip_pending(r),
            Reader::Bzip2(r) => bzip2_pending(r),
            Reader::Xz(r) => xz_pending(r),
        }
    }

    /// Whether the decompressor, once it has handed out what it still has,
    /// reports its end rather than a failure.
    pub open spec fn ends_well(self) -> bool {
        match self {
            Reader::Gzip(r) => gzip_ends_well(r),
            Reader::Bzip2(r) => bzip2_ends_well(r),
            Reader::Xz(r) => xz_ends_well(r),
        }
    }

    /// The format that the decompressor reads.
    pub open spec fn driver(self) -> Driver {
        match self {
            Reader::Gzip(_) => Driver::Gzip,
            Reader::Bzip2(_) => Driver::Bzip2,
            Reader::Xz(_) => Driver::Xz,
        }
    }

    /// The extension of the format that the decompressor reads.
    pub fn extension(&self) -> (r: String)
        ensures
            r@ == self.driver().extension_text(),
    {
        match self {
            Reader::Gzip(_) => Driver::Gzip.extension(),
            Reader::Bzip2(_) => Driver::Bzip2.extension(),
            Reader::Xz(_) => Driver::Xz.extension(),
        }
    }

    /// A decompressor of the format over `data`, where the format has one.
    pub fn open(driver: Driver, data: Vec<u8>) -> (r: Option<Reader>)
        ensures
            r.is_some() == has_stream(driver),
            r.is_some() ==> {
                &&& r.unwrap().driver() == driver
                &&& decoded(driver, data@) == read_to_end(
                    r.unwrap().pending(),
                    r.unwrap().ends_well(),
                )
            },
    {
        match driver {
            Driver::Gzip => Some(Reader::Gzip(gzip_reader(data))),
            Driver::Bzip2 => Some(Reader::Bzip2(bzip2_reader(data))),
            Driver::Xz => Some(Reader::Xz(xz_reader(data))),
            _ => None,
        }
    }

    /// Reads the next bytes into the start of `buffer`, which has `READ_SIZE`
    /// bytes, and says how many they are; none at the end of the stream.
    /// Fails where the stream is not sound.
    pub(crate) fn read(&mut self, buffer: &mut Vec<u8>) -> (r: Result<usize, Error>)
        requires
            old(buffer)@.len() == READ_SIZE,
        ensures
            final(buffer)@.len() == old(buffer)@.len(),
            final(self).driver() == old(self).driver(),
            match r {
                Ok(n) => {
                    &&& n <= final(buffer)@.len()
                    &&& n <= old(self).pending().len()
                    &&& final(buffer)@.take(n as int) == old(self).pending().take(n as int)
                    &&& final(self).pending() == old(self).pending().skip(n as int)
                    &&& final(self).ends_well() == old(self).ends_well()
                    &&& n == 0 ==> old(self).pending().len() == 0 && old(self).ends_well()
                },
                Err(e) => {
                    &&& e is CodecFailure
                    &&& old(self).pending().len() == 0
                    &&& !old(self).ends_well()
                },
            },
    {
        let read = match self {
            Reader::Gzip(reader) => gzip_read(reader, buffer),
            Reader::Bzip2(reader) => bzip2_read(reader, buffer),
            Reader::Xz(reader) => xz_read(reader, buffer),
        };
        match read {
            Ok(n) => Ok(n),
            Err(e) => Err(codec_failure(&e)),
        }
    }
}

} // verus!
