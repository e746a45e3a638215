//! Storing blobs and reading them back.
//!
//! A store keeps bytes under a key and gives back ranges of them. The functions
//! below say which ranges to ask for, and make the blob of the answers.
use vstd::prelude::*;
use vstd::bytes::*;
use crate::blob_codec;
use crate::blob_codec::{
    compress_block, CompressionAlgo, LZ4_MARKER, LZ4_STREAM_MARKER, MIN_BLOCK_LEN,
    MIN_STREAM_LEN, NONE_MARKER,
};
use crate::blob_writer::BlobWriter;
use crate::byte_range::{copy_clip, ByteRange};
use crate::foreign::lz4;
use crate::foreign::lz4::{decompress_error_text, decompress_size_prepended};
use crate::frame;
use crate::io_error::IoError;
use crate::jumbo::JumboBytesMut;
use crate::stream;
use crate::stream::{BlobReadStream, StreamStep};
use crate::stream_laws;
use crate::stream_laws::CompressedEvent;
use crate::tape;
use crate::tape::Tape;

verus! {

/// What can go wrong with a store.
#[derive(Debug)]
pub enum StoreError {
    /// No store is set up.
    NotConfigured,
    /// The stored bytes are corrupt.
    DecompressError(String),
    /// The bytes could not be written.
    BlobWrite(IoError),
    /// The bytes could not be read.
    UnexpectedError(IoError),
    /// A file could not be read or written.
    FilesystemError(IoError),
    /// The cloud service refused.
    AzureError(String),
}

/// The stores that take a blob as a whole.
#[derive(Clone, Copy, PartialEq, Eq, Debug, Structural)]
pub enum Store {
    SQLite,
    FoundationDb,
    PostgreSQL,
    MySQL,
    RocksDb,
    Ephemeral,
    SQLReadReplica,
    /// No store at all.
    Unset,
}

/// The places where blobs can be kept.
#[derive(Clone, Copy, PartialEq, Eq, Debug, Structural)]
pub enum BlobStore {
    Store(Store),
    Fs,
    S3,
    Azure,
    Sharded,
}

impl BlobStore {
    /// Whether there is a store to turn to.
    pub fn configured(&self) -> (result: Result<(), StoreError>)
        ensures
            *self == BlobStore::Store(Store::Unset) ==> result == Err::<(), _>(
                StoreError::NotConfigured,
            ),
            *self != BlobStore::Store(Store::Unset) ==> result is Ok,
    {
        match self {
            BlobStore::Store(Store::Unset) => Err(StoreError::NotConfigured),
            _ => Ok(()),
        }
    }

    /// Whether the store takes a blob as a whole rather than as a stream.
    pub fn takes_whole_blobs(&self) -> (whole: bool)
        ensures
            whole == (self is Store),
    {
        match self {
            BlobStore::Store(_) => true,
            _ => false,
        }
    }
}

/// What has to be asked to learn how a blob is compressed.
#[derive(Clone, Copy, PartialEq, Eq, Debug, Structural)]
pub enum MethodStep {
    /// Nothing: there is no such blob.
    Missing,
    /// Nothing: the marker and the length with it are known.
    Known(u8, u64),
    /// The bytes in this range.
    Read(ByteRange),
}

/// What has to be asked to learn how a blob is compressed, of which `raw_length` bytes
/// are stored.
pub open spec fn method_step(raw_length: Option<u64>) -> MethodStep {
    match raw_length {
        None => MethodStep::Missing,
        Some(len) => if len == 0 {
            MethodStep::Known(NONE_MARKER, 1)
        } else {
            MethodStep::Read(ByteRange { start: (len - 1) as u64, end: u64::MAX })
        },
    }
}

/// Begins to find out how a blob is compressed, from the length of what is
/// stored. An empty blob counts as one byte long, as if its marker were there.
pub fn method_query(raw_length: Option<u64>) -> (step: MethodStep)
    ensures
        step == method_step(raw_length),
{
    match raw_length {
        None => MethodStep::Missing,
        Some(len) => {
            if len == 0 {
                MethodStep::Known(NONE_MARKER, 1)
            } else {
                MethodStep::Read(ByteRange::new(len - 1, u64::MAX))
            }
        },
    }
}

/// The marker of a blob and its length with it, from its last stored bytes.
pub open spec fn method_known(raw_length: u64, last: Option<Seq<u8>>) -> Option<(u8, u64)> {
    match last {
        None => Some((NONE_MARKER, (raw_length + 1) as u64)),
        Some(bytes) => if bytes.len() == 0 {
            None
        } else {
            Some((bytes.last(), raw_length))
        },
    }
}

impl BlobStore {
    /// The marker of a blob and its length with it, from the last stored byte. A blob
    /// whose last byte is not there counts as one byte longer, as if its marker were.
    pub fn get_blob_compression_method_and_raw_length(raw_length: u64, last: Option<&[u8]>) -> (method:
        Option<(u8, u64)>)
        requires
            last is None ==> raw_length < u64::MAX,
        ensures
            method == method_known(
                raw_length,
                match last {
                    Some(bytes) => Some(bytes@),
                    None => None,
                },
            ),
    {
        match last {
            None => Some((NONE_MARKER, raw_length + 1)),
            Some(bytes) => {
                if bytes.len() == 0 {
                    None
                } else {
                    Some((bytes[bytes.len() - 1], raw_length))
                }
            },
        }
    }
}

/// What has to be asked to learn how long a blob is.
#[derive(Clone, Copy, PartialEq, Eq, Debug, Structural)]
pub enum LengthStep {
    /// Nothing: this is the length, if there is such a blob.
    Done(Option<u64>),
    /// The first four bytes.
    ReadBlockSize,
    /// The first eight bytes.
    ReadStreamSize,
}

/// What has to be asked to learn how long a blob is, from its marker and its length with
/// it.
pub open spec fn length_step(method: Option<(u8, u64)>) -> LengthStep {
    match method {
        None => LengthStep::Done(None),
        Some((marker, raw_length)) => if marker == NONE_MARKER {
            LengthStep::Done(
                Some(
                    if raw_length == 0 {
                        0
                    } else {
                        (raw_length - 1) as u64
                    },
                ),
            )
        } else if marker == LZ4_MARKER && raw_length >= MIN_BLOCK_LEN {
            LengthStep::ReadBlockSize
        } else if marker == LZ4_STREAM_MARKER && raw_length >= MIN_STREAM_LEN {
            LengthStep::ReadStreamSize
        } else {
            LengthStep::Done(Some(raw_length))
        },
    }
}

/// Begins to find out how long a blob is, from its marker and its length with it.
/// Where a blob is shorter than any with that marker, or the marker is unknown,
/// it is as long as what is stored.
pub fn length_query(method: Option<(u8, u64)>) -> (step: LengthStep)
    ensures
        step == length_step(method),
{
    match method {
        None => LengthStep::Done(None),
        Some((marker, raw_length)) => {
            if marker == NONE_MARKER {
                LengthStep::Done(Some(raw_length.saturating_sub(1)))
            } else if marker == LZ4_MARKER && raw_length >= MIN_BLOCK_LEN {
                LengthStep::ReadBlockSize
            } else if marker == LZ4_STREAM_MARKER && raw_length >= MIN_STREAM_LEN {
                LengthStep::ReadStreamSize
            } else {
                LengthStep::Done(Some(raw_length))
            }
        },
    }
}

/// The length of a compressed block's data, from its first bytes.
pub open spec fn block_size_of(prefix: Option<Seq<u8>>) -> Option<u64> {
    match prefix {
        Some(bytes) if bytes.len() == 4 => Some(spec_u32_from_le_bytes(bytes) as u64),
        _ => None,
    }
}

/// The length of a compressed frame's data, from its first bytes.
pub open spec fn stream_size_of(prefix: Option<Seq<u8>>) -> Option<u64> {
    match prefix {
        Some(bytes) if bytes.len() == 8 => Some(spec_u64_from_le_bytes(bytes)),
        _ => None,
    }
}

/// The length of a compressed block's data, from its first four bytes. Other than
/// four bytes are no size.
pub fn block_size(prefix: Option<&[u8]>) -> (len: Option<u64>)
    ensures
        len == block_size_of(
            match prefix {
                Some(bytes) => Some(bytes@),
                None => None,
            },
        ),
{
    match prefix {
        Some(bytes) => {
            if bytes.len() == 4 {
                let size: u32 = u32_from_le_bytes(bytes);
                Some(size as u64)
            } else {
                None
            }
        },
        None => None,
    }
}

/// The length of a compressed frame's data, from its first eight bytes. Other than
/// eight bytes are no size.
pub fn stream_size(prefix: Option<&[u8]>) -> (len: Option<u64>)
    ensures
        len == stream_size_of(
            match prefix {
                Some(bytes) => Some(bytes@),
                None => None,
            },
        ),
{
    match prefix {
        Some(bytes) => {
            if bytes.len() == 8 {
                Some(u64_from_le_bytes(bytes))
            } else {
                None
            }
        },
        None => None,
    }
}

/// What has to be asked to read a range of a blob.
#[derive(Clone, Copy, PartialEq, Eq, Debug, Structural)]
pub enum GetStep {
    /// Nothing: there is no such blob.
    Missing,
    /// Nothing: the range selects nothing.
    Empty,
    /// The bytes in this range, which are those of the blob.
    Read { range: ByteRange, len: u64 },
    /// The bytes in this range: a block to be decompressed as a whole.
    ReadBlock(ByteRange),
    /// The bytes in this range: the size of the data and then a frame.
    ReadStream(ByteRange),
}

/// The part of a range that lies before `end`.
pub open spec fn read_plain(range: ByteRange, end: u64) -> GetStep {
    let to = if range.end > end {
        end
    } else {
        range.end
    };
    if range.start >= to {
        GetStep::Empty
    } else {
        GetStep::Read {
            range: ByteRange { start: range.start, end: to },
            len: (to - range.start) as u64,
        }
    }
}

/// What has to be asked to read a range of a blob, from its marker and its length with it.
pub open spec fn get_step(method: Option<(u8, u64)>, range: ByteRange) -> GetStep {
    match method {
        None => GetStep::Missing,
        Some((marker, raw_length)) => if marker == NONE_MARKER {
            read_plain(
                range,
                if raw_length == 0 {
                    0
                } else {
                    (raw_length - 1) as u64
                },
            )
        } else if marker == LZ4_MARKER && raw_length >= MIN_BLOCK_LEN {
            GetStep::ReadBlock(ByteRange { start: 0, end: (raw_length - 1) as u64 })
        } else if marker == LZ4_STREAM_MARKER && raw_length >= MIN_STREAM_LEN {
            GetStep::ReadStream(ByteRange { start: 0, end: (raw_length - 1) as u64 })
        } else {
            read_plain(range, raw_length)
        },
    }
}

impl BlobStore {
    /// Begins to read a range of a blob, from its marker and its length with it.
    pub fn get_blob(method: Option<(u8, u64)>, range: ByteRange) -> (step: GetStep)
        ensures
            step == get_step(method, range),
    {
        match method {
            None => GetStep::Missing,
            Some((marker, raw_length)) => {
                let mut range = range;
                if marker == NONE_MARKER {
                    if range.end >= raw_length {
                        range.end = raw_length.saturating_sub(1);
                    }
                } else if marker == LZ4_MARKER && raw_length >= MIN_BLOCK_LEN {
                    return GetStep::ReadBlock(ByteRange::new(0, raw_length - 1));
                } else if marker == LZ4_STREAM_MARKER && raw_length >= MIN_STREAM_LEN {
                    return GetStep::ReadStream(ByteRange::new(0, raw_length - 1));
                } else if range.end > raw_length {
                    range.end = raw_length;
                }
                if range.start >= range.end {
                    GetStep::Empty
                } else {
                    GetStep::Read { range, len: range.len() }
                }
            },
        }
    }
}

/// The length that is reported for a range of compressed data of which `total`
/// bytes are there: the range's own, but no more than there are.
pub open spec fn reported_length(range: ByteRange, total: nat) -> nat {
    tape::min_nat(range.spec_len(), total)
}

/// The length that is reported for a range of compressed data.
pub fn result_length(range: ByteRange, total: u64) -> (len: u64)
    ensures
        len == reported_length(range, total as nat),
{
    let len: u64 = range.len();
    if len < total {
        len
    } else {
        total
    }
}

/// Decompresses a block, and says which length to report.
pub fn decompress_block(bytes: &[u8], range: ByteRange) -> (result: Result<
    (Vec<u8>, u64),
    StoreError,
>)
    ensures
        lz4::unblock(bytes@) is None ==> result is Err && result->Err_0 is DecompressError,
        lz4::unblock(bytes@) is Some ==> {
            &&& result matches Ok((data, len))
            &&& Some(data@) == lz4::unblock(bytes@)
            &&& len == reported_length(range, data@.len())
        },
{
    match decompress_size_prepended(bytes) {
        Ok(data) => {
            let len: u64 = result_length(range, data.len() as u64);
            Ok((data, len))
        },
        Err(error) => Err(StoreError::DecompressError(decompress_error_text(&error))),
    }
}

/// The length to report for a range of a frame's data, from the first eight bytes
/// of what is stored. The source must have had as many.
pub fn stream_result_length(prefix: &[u8], range: ByteRange) -> (len: Option<u64>)
    ensures
        prefix@.len() != 8 ==> len is None,
        prefix@.len() == 8 ==> len == Some(
            reported_length(range, spec_u64_from_le_bytes(prefix@) as nat) as u64,
        ),
{
    match stream_size(Some(prefix)) {
        Some(total) => Some(result_length(range, total)),
        None => None,
    }
}

/// How a blob is written to a store.
pub enum PutStep {
    /// Seek to the end of the data, write the marker, and store all of it.
    AppendMarker { data: JumboBytesMut, marker: u8 },
    /// Store these bytes.
    Store(Vec<u8>),
    /// Rewind the data, write it to a new buffer through the writer, and store what
    /// that holds.
    Stream { data: JumboBytesMut, writer: BlobWriter },
}

/// Whether data is compressed in one block: it is in memory, its length fits in
/// four bytes, and a block of it with its size and its marker fits in memory.
pub open spec fn goes_into_block(data: JumboBytesMut) -> bool {
    &&& data.is_ram()
    &&& data.spec_len() <= u32::MAX
    &&& lz4::block_bound(data.spec_len()) + 5 <= usize::MAX
}

/// How a blob is written to a store.
pub open spec fn puts(
    data: JumboBytesMut,
    compression: CompressionAlgo,
    step: PutStep,
) -> bool {
    &&& compression == CompressionAlgo::Uncompressed ==> step == (PutStep::AppendMarker {
        data: JumboBytesMut { max_size: u64::MAX, ..data },
        marker: NONE_MARKER,
    })
    &&& compression == CompressionAlgo::Lz4 && goes_into_block(data) ==> {
        &&& step matches PutStep::Store(raw)
        &&& blob_codec::is_block(raw@, data.ram().data)
        &&& blob_codec::is_stored(raw@, data.ram().data)
    }
    &&& compression == CompressionAlgo::Lz4 && !goes_into_block(data) ==> {
        &&& step matches PutStep::Stream { data: source, writer }
        &&& source == (JumboBytesMut { max_size: u64::MAX, ..data })
        &&& writer.well_formed()
        &&& writer.declared_len() == data.spec_len()
        &&& writer.written_out().len() == 0
        &&& writer.data().len() == 0
        &&& !writer.is_complete()
    }
}

impl BlobStore {
    /// Begins to write a blob.
    ///
    /// The marker makes the data longer than it may have been allowed to be, so that
    /// it may now be of any length. Data in memory is compressed in one block, if its
    /// length fits in four bytes and memory has room for the block; other data in a
    /// frame.
    pub fn put_blob(data: JumboBytesMut, compression: CompressionAlgo) -> (step: PutStep)
        ensures
            puts(data, compression, step),
    {
        let mut data = data;
        data.max_size = u64::MAX;
        match compression {
            CompressionAlgo::Uncompressed => PutStep::AppendMarker { data, marker: NONE_MARKER },
            CompressionAlgo::Lz4 => {
                let len: u64 = data.len();
                if len <= u32::MAX as u64 && 20 + len * 110 / 100 + 5 <= usize::MAX as u64 {
                    if let Some(bytes) = data.as_slice() {
                        return PutStep::Store(compress_block(bytes));
                    }
                }
                PutStep::Stream { data, writer: BlobWriter::new(len) }
            },
        }
    }
}

/// Whether `len` is the length of the blob that stored bytes stand for.
pub open spec fn tells_length(raw: Seq<u8>, len: u64) -> bool {
    len == blob_codec::stored_length(raw)
}

impl BlobStore {
    /// The length of the blob that stored bytes stand for.
    pub fn get_blob_length(raw: &[u8]) -> (len: u64)
        ensures
            tells_length(raw@, len),
    {
        let size: usize = raw.len();
        match length_query(stored_method(raw)) {
            LengthStep::Done(len) => {
                match len {
                    Some(len) => len,
                    None => 0,
                }
            },
            LengthStep::ReadBlockSize => {
                let prefix = copy_clip(raw, 0, 4);
                assert(prefix@ =~= raw@.take(4));
                match block_size(Some(prefix.as_slice())) {
                    Some(len) => len,
                    None => 0,
                }
            },
            LengthStep::ReadStreamSize => {
                let prefix = copy_clip(raw, 0, 8);
                assert(prefix@ =~= raw@.take(8));
                match stream_size(Some(prefix.as_slice())) {
                    Some(len) => len,
                    None => 0,
                }
            },
        }
    }
}

/// The marker of stored bytes and their length with it.
fn stored_method(raw: &[u8]) -> (method: Option<(u8, u64)>)
    ensures
        method == if raw@.len() == 0 {
            Some((NONE_MARKER, 1u64))
        } else {
            Some((raw@.last(), raw@.len() as u64))
        },
{
    match method_query(Some(raw.len() as u64)) {
        MethodStep::Missing => None,
        MethodStep::Known(marker, len) => Some((marker, len)),
        MethodStep::Read(range) => {
            let last = copy_clip(raw, range.start as usize, raw.len());
            assert(last@ =~= seq![raw@.last()]);
            BlobStore::get_blob_compression_method_and_raw_length(
                raw.len() as u64,
                Some(last.as_slice()),
            )
        },
    }
}

/// The number of bytes up to `end` that memory can hold.
fn to_position(end: u64) -> (position: usize)
    ensures
        position == tape::min_nat(end as nat, usize::MAX as nat),
{
    if end > usize::MAX as u64 {
        usize::MAX
    } else {
        end as usize
    }
}

/// The length that is reported for a range of a blob: for data that is not
/// compressed the number of bytes that the range selects, for other data the
/// range's own length, but no more than the data has.
pub open spec fn blob_reported_length(raw: Seq<u8>, range: ByteRange) -> nat {
    if raw.len() >= MIN_BLOCK_LEN && raw.last() == LZ4_MARKER {
        reported_length(range, (blob_codec::stored_content(raw)->0).len())
    } else if raw.len() >= MIN_STREAM_LEN && raw.last() == LZ4_STREAM_MARKER {
        reported_length(range, blob_codec::stored_length(raw))
    } else {
        range.select(blob_codec::stored_content(raw)->0).len()
    }
}

/// What comes of reading a range of the blob that stored bytes stand for.
pub open spec fn reads_blob(
    raw: Seq<u8>,
    range: ByteRange,
    result: Result<(Vec<u8>, u64), StoreError>,
) -> bool {
    &&& blob_codec::stored_content(raw) is Some ==> {
        &&& result matches Ok((data, len))
        &&& data@ == range.select(blob_codec::stored_content(raw)->0)
        &&& len == blob_reported_length(raw, range)
    }
    &&& blob_codec::stored_content(raw) is None && raw.last() == LZ4_MARKER ==> {
        &&& result is Err
        &&& result->Err_0 is DecompressError
    }
    &&& blob_codec::stored_content(raw) is None && raw.last() != LZ4_MARKER ==> {
        let readable = lz4::yielded(Seq::empty(), raw.drop_last().skip(8));
        if !range.spec_is_full() && range.end <= readable.len() {
            &&& result matches Ok((data, len))
            &&& data@ == range.select(readable)
            &&& len == blob_reported_length(raw, range)
        } else {
            &&& result is Err
            &&& result->Err_0 is UnexpectedError
        }
    }
}

impl BlobStore {
    /// Reads a range of the blob that stored bytes stand for, and the length that is
    /// reported for it.
    ///
    /// A block that is corrupt cannot be read at all. A frame that is corrupt can be
    /// read up to there, and fails where the range goes on.
    pub fn get_blob_vec(raw: &[u8], range: ByteRange) -> (result: Result<(Vec<u8>, u64), StoreError>)
        ensures
            reads_blob(raw@, range, result),
    {
        let size: usize = raw.len();
        match BlobStore::get_blob(stored_method(raw), range) {
            GetStep::Missing => Ok((Vec::new(), 0)),
            GetStep::Empty => {
                let data: Vec<u8> = Vec::new();
                assert(data@ =~= range.select(blob_codec::stored_content(raw@)->0));
                Ok((data, 0))
            },
            GetStep::Read { range: part, len } => {
                let data = copy_clip(raw, to_position(part.start), to_position(part.end));
                assert(data@ =~= range.select(blob_codec::stored_content(raw@)->0));
                Ok((data, len))
            },
            GetStep::ReadBlock(part) => {
                let bytes = copy_clip(raw, 0, to_position(part.end));
                assert(bytes@ =~= raw@.drop_last());
                match decompress_block(bytes.as_slice(), range) {
                    Ok((data, len)) => {
                        let size: usize = data.len();
                        let selected = copy_clip(
                            data.as_slice(),
                            to_position(range.start),
                            to_position(range.end),
                        );
                        assert(selected@ =~= range.select(data@));
                        Ok((selected, len))
                    },
                    Err(error) => Err(error),
                }
            },
            GetStep::ReadStream(part) => {
                let prefix = copy_clip(raw, 0, 8);
                assert(prefix@ =~= raw@.take(8));
                let frame = copy_clip(raw, 8, to_position(part.end));
                assert(frame@ =~= raw@.drop_last().skip(8));
                let len: u64 = match stream_result_length(prefix.as_slice(), range) {
                    Some(len) => len,
                    None => 0,
                };
                match read_frame(frame.as_slice(), range) {
                    Ok(data) => Ok((data, len)),
                    Err(error) => Err(StoreError::UnexpectedError(error)),
                }
            },
        }
    }
}

/// The number of bytes that are read of a frame at a time.
pub const FRAME_READ_LEN: usize = 8192;

/// Whether `stream` reads the range of a frame that has come as a whole, and `out`
/// is what it has handed out.
spec fn reads_frame(
    stream: BlobReadStream,
    range: ByteRange,
    frame: Seq<u8>,
    out: Seq<u8>,
) -> bool {
    let decoder = stream_laws::decoder_of(stream);
    &&& stream.well_formed()
    &&& if range.spec_is_full() {
        stream is Lz4 && out == decoder.drawn()
    } else {
        stream.is_segment_of(range) && out == range.select(decoder.drawn())
    }
    &&& decoder.source() == frame
    &&& decoder.at_eof()
    &&& decoder.is_first()
}

/// A read of a frame hands out more of it.
proof fn lemma_frame_read(
    before: BlobReadStream,
    after: BlobReadStream,
    range: ByteRange,
    frame: Seq<u8>,
    out: Seq<u8>,
    max: nat,
    step: StreamStep,
)
    requires
        reads_frame(before, range, frame, out),
        after.well_formed(),
        stream_laws::compressed_step(before, CompressedEvent::Read { max, step }, after),
        max > 0,
    ensures
        before.decoded().len() <= frame_data(frame).len(),
        step is Ready || step is Failed,
        step matches StreamStep::Ready(bytes) ==> (bytes@.len() > 0 ==> {
            &&& reads_frame(after, range, frame, out + bytes@)
            &&& after.decoded().len() > before.decoded().len()
            &&& after.decoded().len() <= frame_data(frame).len()
        }),
        step matches StreamStep::Ready(bytes) ==> (bytes@.len() == 0 && out.len() <= u64::MAX ==> {
            &&& lz4::unframe(frame) matches Some(whole) ==> out == range.select(whole)
            &&& lz4::unframe(frame) is None ==> {
                &&& !range.spec_is_full()
                &&& range.end <= frame_data(frame).len()
                &&& out == range.select(frame_data(frame))
            }
        }),
        step is Failed ==> lz4::unframe(frame) is None && (range.spec_is_full() || range.end
            > frame_data(frame).len()),
{
    let bytes = stream_laws::bytes_of(CompressedEvent::Read { max, step });
    let decoder = stream_laws::decoder_of(before);
    let next = stream_laws::decoder_of(after);
    assert(decoder.rest() =~= frame);
    assert(decoder.out() =~= decoder.drawn());
    assert(decoder.past() =~= Seq::<u8>::empty());
    assert(next.drawn().skip(0) =~= next.drawn());
    assert(decoder.may_be_rest(frame));
    frame::law_decoder_keeps_to_source(decoder, frame);
    if next.is_first() {
        assert(next.rest() =~= frame);
        assert(next.out() =~= next.drawn());
        assert(next.past() =~= Seq::<u8>::empty());
        assert(next.may_be_rest(frame));
        frame::law_decoder_keeps_to_source(next, frame);
    }
    if bytes.len() == 0 {
        assert(out + bytes =~= out);
    }
    if let BlobReadStream::Lz4Segment { limit, bytes_to_discard, .. } = before {
        if let BlobReadStream::Lz4Segment {
            limit: next_limit,
            bytes_to_discard: next_discard,
            ..
        } = after {
            stream::law_segment_advances(
                (decoder.drawn(), next.drawn()),
                (limit, next_limit),
                (bytes_to_discard, next_discard),
                bytes,
                range,
            );
            if bytes.len() == 0 && step is Ready && next_limit == 0 {
                assert(bytes =~= Seq::<u8>::empty());
                stream::law_segment_is_complete(
                    next.drawn(),
                    next_limit,
                    next_discard,
                    frame_data(frame),
                    range,
                );
                if let Some(whole) = lz4::unframe(frame) {
                    stream::law_segment_is_complete(
                        next.drawn(),
                        next_limit,
                        next_discard,
                        whole,
                        range,
                    );
                }
            }
        }
    } else {
        assert(out.len() <= u64::MAX ==> range.select(out) =~= out);
    }
}

/// The data that comes of a frame until the decoder stops.
spec fn frame_data(frame: Seq<u8>) -> Seq<u8> {
    lz4::yielded(Seq::empty(), frame)
}

/// Reads a range of the data of a frame, piece by piece as a stream does.
fn read_frame(frame: &[u8], range: ByteRange) -> (data: Result<Vec<u8>, IoError>)
    ensures
        lz4::unframe(frame@) matches Some(whole) ==> data matches Ok(data) && data@ == range.select(
            whole,
        ),
        lz4::unframe(frame@) is None ==> {
            &&& data is Ok <==> !range.spec_is_full() && range.end <= frame_data(frame@).len()
            &&& data matches Ok(data) ==> data@ == range.select(frame_data(frame@))
        },
{
    let mut stream = BlobReadStream::lz4_stream_range(range);
    let _ = stream.source_read(vstd::slice::slice_to_vec(frame));
    let _ = stream.source_read(Vec::new());
    let mut out: Vec<u8> = Vec::new();
    proof {
        let decoder = stream_laws::decoder_of(stream);
        assert(decoder.source() =~= frame@);
        assert(decoder.drawn() =~= Seq::<u8>::empty());
        assert(range.select(decoder.drawn()) =~= Seq::<u8>::empty());
    }
    loop
        invariant
            reads_frame(stream, range, frame@, out@),
        decreases frame_data(frame@).len() - stream.decoded().len(),
    {
        let ghost before = stream;
        let step = stream.poll_read(FRAME_READ_LEN);
        let size: usize = out.len();
        proof {
            lemma_frame_read(before, stream, range, frame@, out@, FRAME_READ_LEN as nat, step);
        }
        match step {
            StreamStep::Ready(bytes) => {
                if bytes.len() == 0 {
                    return Ok(out);
                }
                let ghost handed_out = out@;
                out.extend_from_slice(bytes.as_slice());
                assert(out@ =~= handed_out + bytes@);
            },
            StreamStep::Failed(error) => {
                return Err(error);
            },
            _ => {
                return Ok(out);
            },
        }
    }
}

/// Reading a range of a blob gives the bytes of the data that was written under
/// it, and the length is the data's own.
pub proof fn law_get_after_put(raw: Seq<u8>, data: Seq<u8>, range: ByteRange)
    requires
        blob_codec::is_stored(raw, data),
    ensures
        blob_codec::stored_content(raw) is Some,
        range.select(blob_codec::stored_content(raw)->0) == range.select(data),
        blob_codec::stored_length(raw) == data.len(),
{
    blob_codec::law_stored_is_read_back(raw, data);
}

/// Reading a range of a compressed frame piece by piece gives, once there is no
/// more, the bytes of the data that was written under it: `drawn` is what came out
/// of the decoder, `limit` and `discard` what is left of the range.
pub proof fn law_streamed_range(
    raw: Seq<u8>,
    data: Seq<u8>,
    range: ByteRange,
    drawn: Seq<u8>,
    limit: u64,
    discard: u64,
)
    requires
        blob_codec::is_stream(raw, data),
        crate::stream::segment_matches(drawn, limit, discard, range),
        drawn.is_prefix_of(lz4::unframe(raw.drop_last().skip(8))->0),
        limit == 0 || drawn == lz4::unframe(raw.drop_last().skip(8))->0,
    ensures
        range.select(drawn) == range.select(data),
{
    crate::stream::law_segment_is_complete(drawn, limit, discard, data, range);
}

/// The length that is reported for a range of compressed data is the number of bytes that
/// are served, where the range ends within the data. It is never more than the range has
/// positions or the data has bytes, and never less than what is served.
pub proof fn law_reported_length(range: ByteRange, data: Seq<u8>)
    ensures
        range.start <= range.end <= data.len() ==> reported_length(range, data.len())
            == range.select(data).len(),
        range.start <= range.end ==> reported_length(range, data.len()) <= range.end - range.start,
        range.end <= range.start ==> reported_length(range, data.len()) == 0,
        reported_length(range, data.len()) <= data.len(),
        range.select(data).len() <= reported_length(range, data.len()),
        range.start == 0 && data.len() <= range.end ==> reported_length(range, data.len())
            == data.len(),
        range.start <= range.end && range.end - range.start >= data.len() ==> reported_length(
            range,
            data.len(),
        ) == data.len(),
{
}

/// What is reported for a range of a blob is the number of bytes that reading it gives,
/// where the range ends within the data that was written, and for all of it the length of
/// the data. Of data that was stored without compression this holds for every range.
pub proof fn law_reported_length_is_served(raw: Seq<u8>, data: Seq<u8>, range: ByteRange)
    requires
        blob_codec::is_stored(raw, data),
    ensures
        range.end <= data.len() ==> blob_reported_length(raw, range) == range.select(data).len(),
        range.start == 0 && data.len() <= range.end ==> blob_reported_length(raw, range)
            == data.len(),
        raw == data.push(0u8) ==> blob_reported_length(raw, range) == range.select(data).len(),
        range.start <= range.end ==> blob_reported_length(raw, range) <= range.end - range.start,
        blob_reported_length(raw, range) <= data.len(),
        range.select(data).len() <= blob_reported_length(raw, range),
{
    blob_codec::law_stored_is_read_back(raw, data);
    if raw == data.push(0u8) {
        assert(raw.drop_last() =~= data);
    }
}

/// A blob of which nothing is stored is missing; of any other that has bytes, the last one
/// is asked for, and only that.
pub proof fn law_last_byte_is_asked_for(raw: Seq<u8>)
    requires
        raw.len() <= u64::MAX,
    ensures
        method_step(None) is Missing,
        raw.len() == 0 ==> method_step(Some(0)) == MethodStep::Known(0, 1),
        raw.len() > 0 ==> {
            &&& method_step(Some(raw.len() as u64)) matches MethodStep::Read(part)
            &&& part.select(raw) == seq![raw.last()]
        },
{
    if raw.len() > 0 {
        if let MethodStep::Read(part) = method_step(Some(raw.len() as u64)) {
            assert(part.select(raw) =~= seq![raw.last()]);
        }
    }
}

/// Where the last byte of a blob is there, it is the marker; where it is not, nothing is
/// taken off: the blob is as long as what is stored, and is read as it is stored.
pub proof fn law_missing_marker_takes_nothing_off(raw: Seq<u8>, range: ByteRange)
    requires
        raw.len() < u64::MAX,
    ensures
        raw.len() > 0 ==> method_known(raw.len() as u64, Some(seq![raw.last()])) == Some(
            (raw.last(), raw.len() as u64),
        ),
        method_known(raw.len() as u64, Some(Seq::empty())) is None,
        length_step(method_known(raw.len() as u64, None)) == LengthStep::Done(
            Some(raw.len() as u64),
        ),
        match get_step(method_known(raw.len() as u64, None), range) {
            GetStep::Empty => range.select(raw).len() == 0,
            GetStep::Read { range: part, len } => part.select(raw) == range.select(raw) && len
                == range.select(raw).len() && len > 0,
            _ => false,
        },
{
    if let GetStep::Read { range: part, len } = get_step(
        method_known(raw.len() as u64, None),
        range,
    ) {
        assert(part.select(raw) =~= range.select(raw));
    }
}

/// Reading a range of data that is not compressed asks for the bytes that the range
/// selects of the data, and reports their number: the marker is not part of the data, and
/// bytes without a marker that fits them are all data.
pub proof fn law_plain_data_is_read(raw: Seq<u8>, marker: u8, range: ByteRange)
    requires
        0 < raw.len() <= u64::MAX,
        marker == raw.last(),
        marker != 0xa1 || raw.len() < 6,
        marker != 0xa3 || raw.len() < 10,
    ensures
        ({
            let data = if marker == 0 {
                raw.drop_last()
            } else {
                raw
            };
            &&& length_step(Some((marker, raw.len() as u64))) == LengthStep::Done(
                Some(data.len() as u64),
            )
            &&& match get_step(Some((marker, raw.len() as u64)), range) {
                GetStep::Empty => range.select(data).len() == 0,
                GetStep::Read { range: part, len } => part.select(raw) == range.select(data) && len
                    == range.select(data).len() && len > 0,
                _ => false,
            }
        }),
{
    let data = if marker == 0 {
        raw.drop_last()
    } else {
        raw
    };
    if let GetStep::Read { range: part, len } = get_step(
        Some((marker, raw.len() as u64)),
        range,
    ) {
        assert(part.select(raw) =~= range.select(data));
    }
}

/// Compressed data is read as a whole, whatever the range: all that is stored but the
/// marker. Its length is told by the bytes at its start.
pub proof fn law_compressed_data_is_read_whole(raw: Seq<u8>, range: ByteRange)
    requires
        0 < raw.len() <= u64::MAX,
    ensures
        raw.last() == 0xa1 && raw.len() >= 6 ==> {
            &&& get_step(Some((raw.last(), raw.len() as u64)), range) matches GetStep::ReadBlock(part)
            &&& part.select(raw) == raw.drop_last()
            &&& length_step(Some((raw.last(), raw.len() as u64))) is ReadBlockSize
        },
        raw.last() == 0xa3 && raw.len() >= 10 ==> {
            &&& get_step(Some((raw.last(), raw.len() as u64)), range) matches GetStep::ReadStream(part)
            &&& part.select(raw) == raw.drop_last()
            &&& length_step(Some((raw.last(), raw.len() as u64))) is ReadStreamSize
        },
        get_step(None, range) is Missing,
        length_step(None) == LengthStep::Done(None),
{
    let part = ByteRange { start: 0, end: (raw.len() - 1) as u64 };
    assert(part.select(raw) =~= raw.drop_last());
}

/// Data in memory is compressed in one block, as long as its length can be told in 31
/// bits. Data in a file never is.
pub proof fn law_data_in_memory_is_one_block(data: JumboBytesMut)
    ensures
        data.is_ram() && data.ram().data.len() <= 0x7fff_ffff ==> goes_into_block(data),
        !data.is_ram() ==> !goes_into_block(data),
        data.spec_len() > u32::MAX ==> !goes_into_block(data),
{
}

/// The size that was written before a block or a frame is read back, whatever it is. Bytes
/// that are too few or too many are no size, and neither is none.
pub proof fn law_sizes_are_read_back(block: u32, stream: u64, prefix: Seq<u8>)
    ensures
        block_size_of(Some(spec_u32_to_le_bytes(block))) == Some(block as u64),
        stream_size_of(Some(spec_u64_to_le_bytes(stream))) == Some(stream),
        prefix.len() != 4 ==> block_size_of(Some(prefix)) is None,
        prefix.len() != 8 ==> stream_size_of(Some(prefix)) is None,
        block_size_of(None) is None,
        stream_size_of(None) is None,
{
    lemma_auto_spec_u32_to_from_le_bytes();
    lemma_auto_spec_u64_to_from_le_bytes();
}

/// However a blob is written, what is stored stands for its data: the data with its marker
/// behind it, a block that was made of it, or what a writer makes that is told its length.
/// The marker goes where the data may grow as far as it has to, and data is compressed just
/// if that was asked for.
pub proof fn law_put_stores_the_data(
    data: JumboBytesMut,
    disk: Tape,
    compression: CompressionAlgo,
    step: PutStep,
)
    requires
        puts(data, compression, step),
        data.goes_with(disk),
        data.is_ram() || data.is_file(),
        data.spec_len() <= u64::MAX,
    ensures
        step is AppendMarker <==> compression == CompressionAlgo::Uncompressed,
        step matches PutStep::AppendMarker { data: kept, marker } ==> {
            let seen = data.tape(disk);
            &&& kept.tape(disk) == seen
            &&& kept.max_size == u64::MAX
            &&& blob_codec::is_stored(seen.at(seen.data.len()).written(seq![marker]).data, seen.data)
        },
        step matches PutStep::Store(raw) ==> {
            &&& data.is_ram()
            &&& blob_codec::is_stored(raw@, data.tape(disk).data)
        },
        step matches PutStep::Stream { data: kept, writer } ==> {
            &&& kept.tape(disk).data == data.tape(disk).data
            &&& kept.max_size == u64::MAX
            &&& writer.declared_len() == data.tape(disk).data.len()
            &&& writer.written_out().len() == 0
            &&& writer.data().len() == 0
        },
        compression == CompressionAlgo::Lz4 && data.is_ram() && data.spec_len() <= 0x7fff_ffff
            ==> step is Store,
        compression == CompressionAlgo::Lz4 && data.is_file() ==> step is Stream,
{
    blob_codec::law_appended_marker_is_stored(data.tape(disk));
}

/// What was stored is read back: reading a range never fails, gives the bytes of the data
/// under the range, and reports their number where the range ends within the data. The
/// length that is told is that of the data.
pub proof fn law_stored_blob_is_read(
    raw: Seq<u8>,
    data: Seq<u8>,
    range: ByteRange,
    result: Result<(Vec<u8>, u64), StoreError>,
    len: u64,
)
    requires
        blob_codec::is_stored(raw, data),
        reads_blob(raw, range, result),
        tells_length(raw, len),
    ensures
        ({
            &&& result matches Ok((bytes, reported))
            &&& bytes@ == range.select(data)
            &&& range.end <= data.len() ==> reported == bytes@.len()
            &&& bytes@.len() <= reported <= data.len()
            &&& range.start <= range.end ==> reported <= range.end - range.start
        }),
        len == data.len(),
{
    law_get_after_put(raw, data, range);
    law_reported_length_is_served(raw, data, range);
}

/// What is not compressed is always read, whatever it is: with a zero behind it, what comes
/// before that, and otherwise all of it as it stands.
pub proof fn law_unmarked_blob_is_read(
    raw: Seq<u8>,
    range: ByteRange,
    result: Result<(Vec<u8>, u64), StoreError>,
    len: u64,
)
    requires
        reads_blob(raw, range, result),
        tells_length(raw, len),
        raw.len() > 0,
        raw.last() != 0xa1 || raw.len() < 6,
        raw.last() != 0xa3 || raw.len() < 10,
    ensures
        ({
            let data = if raw.last() == 0 {
                raw.drop_last()
            } else {
                raw
            };
            &&& result matches Ok((bytes, reported))
            &&& bytes@ == range.select(data)
            &&& reported == bytes@.len()
            &&& len == data.len()
        }),
{
    blob_codec::law_marker_tells_the_form(raw);
}

/// A block that does not decompress cannot be read, and that is told. Of a frame that does
/// not, what comes out before it fails is read, as long as the range ends there.
pub proof fn law_corrupt_blob_is_told(
    raw: Seq<u8>,
    range: ByteRange,
    result: Result<(Vec<u8>, u64), StoreError>,
)
    requires
        reads_blob(raw, range, result),
    ensures
        raw.len() >= 6 && raw.last() == 0xa1 && lz4::unblock(raw.drop_last()) is None ==> (
        result matches Err(error) && error is DecompressError),
        raw.len() >= 10 && raw.last() == 0xa3 && lz4::unframe(raw.drop_last().skip(8)) is None ==> {
            let readable = lz4::yielded(Seq::empty(), raw.drop_last().skip(8));
            &&& range.end <= readable.len() && !range.spec_is_full() ==> (result matches Ok(read)
                && read.0@ == range.select(readable))
            &&& range.end > readable.len() || range.spec_is_full() ==> (result matches Err(error)
                && error is UnexpectedError)
        },
        raw.len() >= 6 && raw.last() == 0xa1 && lz4::unblock(raw.drop_last()) is Some ==> (
        result matches Ok(read) && read.0@ == range.select(lz4::unblock(raw.drop_last())->0)),
{
}

} // verus!
