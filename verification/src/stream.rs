//! The streams that blobs are read through.
use vstd::prelude::*;
use crate::byte_range;
use crate::byte_range::ByteRange;
use crate::foreign::bytes_buf;
use crate::frame;
use crate::frame::{AsyncFrameDecoder, DecodeStep, Outcome};
use crate::helper_pipe::HELPER_PIPE_BUFFER_SIZE;
use crate::io_error;
use crate::io_error::{IoError, IoErrorKind};
use crate::jumbo::{FileStep, JumboBytesMut, ReadStep};
use crate::tape;
use crate::tape::{SeekFrom, Tape};

verus! {

/// A stream in pages, each of which comes in chunks.
pub struct PagedChunks {
    /// Whether the current page may have more chunks.
    pub in_page: bool,
    /// What is left of the current chunk.
    pub chunk: bytes::Bytes,
}

/// A stream that a blob is read through. Files and connections belong to the
/// application, which reads from them as the steps say.
pub enum BlobReadStream {
    /// A buffer, from its cursor on.
    Bytes(JumboBytesMut),
    /// A file, from its position on.
    File,
    /// At most `limit` bytes of a buffer.
    ByteSegment { inner: JumboBytesMut, limit: u64 },
    /// At most `limit` bytes of a file.
    FileSegment { limit: u64 },
    /// The body of a response.
    S3,
    /// The chunks of a response in pages.
    Azure(PagedChunks),
    /// The data of a compressed source.
    Lz4(AsyncFrameDecoder),
    /// At most `limit` bytes of the data of a compressed source, of which
    /// `bytes_to_discard` are passed over.
    Lz4Segment { decoder: AsyncFrameDecoder, limit: u64, bytes_to_discard: u64 },
}

/// What becomes of a read.
#[derive(Debug)]
pub enum StreamStep {
    /// These bytes were read; none if there are no more.
    Ready(Vec<u8>),
    Failed(IoError),
    /// The buffer is on the way into a file: that has to end first.
    AwaitTransition,
    /// The buffer is in a file: read at most so many bytes from it, and hand
    /// them over.
    FromBuffer(usize),
    /// Read at most so many bytes from the source, and hand them over.
    FromSource(usize),
    /// Fetch the next chunk of the page.
    NextChunk,
    /// Fetch the next page.
    NextPage,
}

/// What came of fetching a chunk or a page.
#[derive(Debug)]
pub enum Fetched<T> {
    Got(T),
    Failed(IoError),
    /// There are no more.
    End,
}

impl PagedChunks {
    /// The bytes at hand.
    pub open spec fn at_hand(self) -> Seq<u8> {
        bytes_buf::content(self.chunk)
    }

    /// Hands out at most `max` of the bytes at hand, or says what to fetch.
    pub fn poll_read(&mut self, max: usize) -> (step: StreamStep)
        ensures
            chunks_read(*old(self), *final(self), max as nat, step),
    {
        let len: usize = bytes_buf::as_slice(&self.chunk).len();
        if len > 0 {
            let front = if max > len {
                let mut taken = bytes_buf::empty();
                std::mem::swap(&mut self.chunk, &mut taken);
                taken
            } else {
                bytes_buf::split_to(&mut self.chunk, max)
            };
            let bytes = vstd::slice::slice_to_vec(bytes_buf::as_slice(&front));
            assert(bytes@ =~= old(self).at_hand().take(
                tape::min_nat(max as nat, old(self).at_hand().len()) as int,
            ));
            assert(bytes@ + self.at_hand() =~= old(self).at_hand());
            StreamStep::Ready(bytes)
        } else if self.in_page {
            StreamStep::NextChunk
        } else {
            StreamStep::NextPage
        }
    }

    /// Goes on with a chunk, or with the next page where the page has no more.
    pub fn chunk_fetched(&mut self, fetched: Fetched<bytes::Bytes>, max: usize) -> (step:
        StreamStep)
        requires
            old(self).at_hand().len() == 0,
            old(self).in_page,
        ensures
            chunk_taken(*old(self), *final(self), fetched, max as nat, step),
    {
        match fetched {
            Fetched::Got(chunk) => {
                self.chunk = chunk;
                self.poll_read(max)
            },
            Fetched::Failed(error) => StreamStep::Failed(error),
            Fetched::End => {
                self.in_page = false;
                StreamStep::NextPage
            },
        }
    }

    /// Goes on with a page, or ends where there is none.
    pub fn page_fetched(&mut self, fetched: Fetched<()>) -> (step: StreamStep)
        requires
            old(self).at_hand().len() == 0,
            !old(self).in_page,
        ensures
            page_taken(*old(self), *final(self), fetched, step),
    {
        match fetched {
            Fetched::Got(_) => {
                self.in_page = true;
                StreamStep::NextChunk
            },
            Fetched::Failed(error) => StreamStep::Failed(error),
            Fetched::End => StreamStep::Ready(Vec::new()),
        }
    }
}

/// What a read of at most `max` bytes does to chunks.
pub open spec fn chunks_read(
    before: PagedChunks,
    after: PagedChunks,
    max: nat,
    step: StreamStep,
) -> bool {
    &&& after.in_page == before.in_page
    &&& if before.at_hand().len() > 0 {
        &&& step matches StreamStep::Ready(bytes)
        &&& bytes@ == before.at_hand().take(tape::min_nat(max, before.at_hand().len()) as int)
        &&& bytes@ + after.at_hand() == before.at_hand()
    } else {
        &&& step == if before.in_page {
            StreamStep::NextChunk
        } else {
            StreamStep::NextPage
        }
        &&& after.at_hand() == before.at_hand()
    }
}

/// What becomes of chunks when one more was to be fetched, and what is read of it.
/// An empty chunk ends nothing.
pub open spec fn chunk_taken(
    before: PagedChunks,
    after: PagedChunks,
    fetched: Fetched<bytes::Bytes>,
    max: nat,
    step: StreamStep,
) -> bool {
    match fetched {
        Fetched::Got(chunk) => if bytes_buf::content(chunk).len() > 0 {
            &&& after.in_page
            &&& step matches StreamStep::Ready(bytes)
            &&& bytes@ == bytes_buf::content(chunk).take(
                tape::min_nat(max, bytes_buf::content(chunk).len()) as int,
            )
            &&& bytes@ + after.at_hand() == bytes_buf::content(chunk)
        } else {
            &&& after.in_page
            &&& step is NextChunk
            &&& after.at_hand().len() == 0
        },
        Fetched::Failed(error) => {
            &&& step == StreamStep::Failed(error)
            &&& after == before
        },
        Fetched::End => {
            &&& !after.in_page
            &&& step is NextPage
            &&& after.at_hand() == before.at_hand()
        },
    }
}

/// What becomes of chunks when one more page was to be fetched.
pub open spec fn page_taken(
    before: PagedChunks,
    after: PagedChunks,
    fetched: Fetched<()>,
    step: StreamStep,
) -> bool {
    &&& after.at_hand() == before.at_hand()
    &&& match fetched {
        Fetched::Got(_) => after.in_page && step is NextChunk,
        Fetched::Failed(error) => !after.in_page && step == StreamStep::Failed(error),
        Fetched::End => {
            &&& !after.in_page
            &&& step matches StreamStep::Ready(bytes)
            &&& bytes@.len() == 0
        },
    }
}

/// What became of the first page and its first chunk.
pub enum FirstChunk {
    Got(bytes::Bytes),
    /// The service answered that it has nothing of that name.
    NotFound,
    Failed(IoError),
    /// There was no page, or no chunk in it.
    Nothing,
}

/// Whether, after the data in `drawn` came out of a decoder, `limit` bytes more
/// may, and of those `discard` are passed over, to read the given range.
pub open spec fn segment_matches(
    drawn: Seq<u8>,
    limit: u64,
    discard: u64,
    range: ByteRange,
) -> bool {
    &&& drawn.len() + limit == range.end
    &&& discard == if range.start >= drawn.len() {
        range.start - drawn.len()
    } else {
        0
    }
}

/// What a read of a segment does to the decoder's data, the limit and the number
/// of bytes to pass over, if `bytes` come of it.
pub open spec fn segment_advances(
    drawn: (Seq<u8>, Seq<u8>),
    limit: (u64, u64),
    discard: (u64, u64),
    bytes: Seq<u8>,
) -> bool {
    let fresh = drawn.1.len() - drawn.0.len();
    &&& drawn.0.is_prefix_of(drawn.1)
    &&& bytes.len() <= fresh
    &&& bytes == drawn.1.skip(drawn.1.len() - bytes.len())
    &&& limit.1 == limit.0 - fresh
    &&& discard.1 == discard.0 - (fresh - bytes.len())
    &&& bytes.len() > 0 ==> discard.1 == 0
}

/// Reading on in a segment reads on in the range.
pub proof fn law_segment_advances(
    drawn: (Seq<u8>, Seq<u8>),
    limit: (u64, u64),
    discard: (u64, u64),
    bytes: Seq<u8>,
    range: ByteRange,
)
    requires
        segment_advances(drawn, limit, discard, bytes),
        segment_matches(drawn.0, limit.0, discard.0, range),
    ensures
        segment_matches(drawn.1, limit.1, discard.1, range),
        range.select(drawn.1) == range.select(drawn.0) + bytes,
{
    assert(drawn.0 =~= drawn.1.take(drawn.0.len() as int));
    assert(range.select(drawn.1) =~= range.select(drawn.0) + bytes);
}

/// A segment that has come to its limit, or to the end of the data, has handed
/// out what the range selects.
pub proof fn law_segment_is_complete(
    drawn: Seq<u8>,
    limit: u64,
    discard: u64,
    data: Seq<u8>,
    range: ByteRange,
)
    requires
        segment_matches(drawn, limit, discard, range),
        drawn.is_prefix_of(data),
        limit == 0 || drawn == data,
    ensures
        range.select(drawn) == range.select(data),
{
    assert(range.select(drawn) =~= range.select(data));
}

/// A stream of a range of a buffer whose cursor stands at the range's start.
pub open spec fn byte_stream(bytes: JumboBytesMut, range: ByteRange) -> BlobReadStream {
    if range.end == u64::MAX {
        BlobReadStream::Bytes(bytes)
    } else {
        BlobReadStream::ByteSegment { inner: bytes, limit: range.spec_len() as u64 }
    }
}

/// A stream of a range of a file that stands at the range's start.
pub open spec fn file_stream(range: ByteRange) -> BlobReadStream {
    if range.end == u64::MAX {
        BlobReadStream::File
    } else {
        BlobReadStream::FileSegment { limit: range.spec_len() as u64 }
    }
}

/// Whether nothing was read yet of a range of the data of a compressed source.
pub open spec fn begins_range(stream: BlobReadStream, range: ByteRange) -> bool {
    &&& stream.decoded().len() == 0
    &&& range.spec_is_full() ==> stream is Lz4 && stream->Lz4_0.is_first()
        && !stream->Lz4_0.at_eof() && stream->Lz4_0.source().len() == 0
    &&& !range.spec_is_full() ==> stream.is_segment_of(range) && stream->decoder.is_first()
        && !stream->decoder.at_eof() && stream->decoder.source().len() == 0
}

/// What becomes of a buffer of which a range is to be read.
pub open spec fn seeks_to_range(
    before: JumboBytesMut,
    after: JumboBytesMut,
    range: ByteRange,
    step: FileStep,
) -> bool {
    &&& after.max_size == before.max_size
    &&& after.max_ram_size == before.max_ram_size
    &&& before.is_ram() ==> step is Ready && after.is_ram() && after.ram()
        == before.ram().at(range.start as nat)
    &&& before.is_file() ==> step is OnFile && after == before
    &&& before.inner is None ==> {
        &&& step matches FileStep::Failed(e)
        &&& e.says(IoErrorKind::BrokenPipe, io_error::reuse_after_drop_text())
        &&& after == before
    }
}

/// What the first chunk of a response makes of it.
pub open spec fn first_chunk_makes(
    first: FirstChunk,
    stream: Result<Option<BlobReadStream>, IoError>,
) -> bool {
    &&& match first {
        FirstChunk::Got(chunk) => stream == Ok::<_, IoError>(
            Some(BlobReadStream::Azure(PagedChunks { in_page: true, chunk })),
        ),
        FirstChunk::NotFound => stream == Ok::<Option<BlobReadStream>, IoError>(None),
        FirstChunk::Nothing => stream == Ok::<Option<BlobReadStream>, IoError>(None),
        FirstChunk::Failed(error) => stream == Err::<Option<BlobReadStream>, _>(error),
    }
}

impl BlobReadStream {
    /// The parts are what they have to be.
    pub open spec fn well_formed(self) -> bool {
        match self {
            BlobReadStream::Lz4(decoder) => decoder.well_formed(),
            BlobReadStream::Lz4Segment { decoder, .. } => decoder.well_formed(),
            _ => true,
        }
    }

    /// Whether this is the part of a compressed source's data that `range` selects.
    pub open spec fn is_segment_of(self, range: ByteRange) -> bool {
        self matches BlobReadStream::Lz4Segment { decoder, limit, bytes_to_discard }
            && segment_matches(decoder.drawn(), limit, bytes_to_discard, range)
    }

    /// The data that a decoder has handed out, where there is one.
    pub open spec fn decoded(self) -> Seq<u8> {
        match self {
            BlobReadStream::Lz4(decoder) => decoder.drawn(),
            BlobReadStream::Lz4Segment { decoder, .. } => decoder.drawn(),
            _ => Seq::empty(),
        }
    }

    /// Begins to read a range of a buffer: its cursor has to be moved first.
    pub fn seek_range(bytes: &mut JumboBytesMut, range: ByteRange) -> (step: FileStep)
        requires
            !old(bytes).is_transitioning(),
        ensures
            seeks_to_range(*old(bytes), *final(bytes), range, step),
    {
        bytes.start_seek(SeekFrom::Start(range.start))
    }

    /// A stream of a range of a buffer whose cursor stands at the range's start.
    pub fn byte_range(bytes: JumboBytesMut, range: ByteRange) -> (stream: BlobReadStream)
        ensures
            stream == byte_stream(bytes, range),
    {
        if range.end == u64::MAX {
            BlobReadStream::Bytes(bytes)
        } else {
            BlobReadStream::ByteSegment { inner: bytes, limit: range.len() }
        }
    }

    /// A stream of a range of a file that stands at the range's start.
    pub fn file_range(range: ByteRange) -> (stream: BlobReadStream)
        ensures
            stream == file_stream(range),
    {
        if range.end == u64::MAX {
            BlobReadStream::File
        } else {
            BlobReadStream::FileSegment { limit: range.len() }
        }
    }

    /// A stream of a range of the data of a compressed source.
    pub fn lz4_stream_range(range: ByteRange) -> (stream: BlobReadStream)
        ensures
            stream.well_formed(),
            begins_range(stream, range),
    {
        if range.is_full() {
            BlobReadStream::Lz4(AsyncFrameDecoder::new())
        } else {
            BlobReadStream::Lz4Segment {
                decoder: AsyncFrameDecoder::new(),
                limit: range.end,
                bytes_to_discard: range.start,
            }
        }
    }

    /// A stream of the chunks of a response, once its first chunk was fetched:
    /// that makes the difference between a blob that is not there and an error.
    pub fn azure_stream(first: FirstChunk) -> (stream: Result<Option<BlobReadStream>, IoError>)
        ensures
            first_chunk_makes(first, stream),
    {
        match first {
            FirstChunk::Got(chunk) => Ok(
                Some(BlobReadStream::Azure(PagedChunks { in_page: true, chunk })),
            ),
            FirstChunk::NotFound => Ok(None),
            FirstChunk::Nothing => Ok(None),
            FirstChunk::Failed(error) => Err(error),
        }
    }

    /// Reads at most `max` bytes of a buffer.
    fn read_buffer(inner: &mut JumboBytesMut, max: usize) -> (step: StreamStep)
        ensures
            final(inner).max_size == old(inner).max_size,
            final(inner).max_ram_size == old(inner).max_ram_size,
            old(inner).is_ram() ==> {
                &&& step matches StreamStep::Ready(bytes)
                &&& bytes@ == old(inner).ram().next(max as nat)
                &&& final(inner).is_ram()
                &&& final(inner).ram() == old(inner).ram().advanced(bytes@.len())
            },
            old(inner).is_transitioning() ==> step is AwaitTransition && *final(inner) == *old(inner),
            old(inner).is_file() ==> step == StreamStep::FromBuffer(max) && *final(inner) == *old(inner),
            old(inner).inner is None ==> {
                &&& step matches StreamStep::Failed(e)
                &&& e.says(IoErrorKind::BrokenPipe, io_error::reuse_after_drop_text())
                &&& *final(inner) == *old(inner)
            },
    {
        match inner.poll_read(max) {
            ReadStep::Ready(bytes) => StreamStep::Ready(bytes),
            ReadStep::AwaitTransition => StreamStep::AwaitTransition,
            ReadStep::ReadFromFile => StreamStep::FromBuffer(max),
            ReadStep::Failed(error) => StreamStep::Failed(error),
        }
    }
}

/// What a read of at most `max` bytes does to a buffer.
pub open spec fn buffer_reads(
    before: JumboBytesMut,
    after: JumboBytesMut,
    max: nat,
    step: StreamStep,
) -> bool {
    &&& after.max_size == before.max_size
    &&& after.max_ram_size == before.max_ram_size
    &&& before.is_ram() ==> {
        &&& step matches StreamStep::Ready(bytes)
        &&& bytes@ == before.ram().next(max)
        &&& after.is_ram()
        &&& after.ram() == before.ram().advanced(bytes@.len())
    }
    &&& before.is_transitioning() ==> step is AwaitTransition && after == before
    &&& before.is_file() ==> step == StreamStep::FromBuffer(max as usize) && after == before
    &&& before.inner is None ==> {
        &&& step matches StreamStep::Failed(e)
        &&& e.says(IoErrorKind::BrokenPipe, io_error::reuse_after_drop_text())
        &&& after == before
    }
}

/// What a read of a decoder comes to.
pub open spec fn outcome_of(step: StreamStep) -> Outcome {
    match step {
        StreamStep::Ready(bytes) => Outcome::Data(bytes@),
        StreamStep::Failed(_) => Outcome::Failure,
        _ => Outcome::Wait,
    }
}

/// What a read of at most `max` bytes does to a decoder.
pub open spec fn decoder_reads(
    before: AsyncFrameDecoder,
    after: AsyncFrameDecoder,
    max: nat,
    step: StreamStep,
) -> bool {
    &&& step is Ready || step is FromSource || step is Failed
    &&& frame::reads(before, after, max, outcome_of(step))
    &&& step matches StreamStep::FromSource(len) ==> len == tape::max_nat(
        max,
        HELPER_PIPE_BUFFER_SIZE as nat,
    )
}

/// The room of the read of a segment that comes next, where `limit` bytes more may be
/// read and `discard` are to be passed over.
pub open spec fn segment_room(limit: u64, discard: u64, max: nat) -> nat {
    tape::min_nat(
        limit as nat,
        if discard > 0 {
            tape::min_nat(discard as nat, HELPER_PIPE_BUFFER_SIZE as nat)
        } else {
            max
        },
    )
}

/// What a read of at most `max` bytes does to a segment of a decoder's data: what lies
/// before the range is passed over, and nothing comes out once the limit is reached.
pub open spec fn segment_reads(
    before: (AsyncFrameDecoder, u64, u64),
    after: (AsyncFrameDecoder, u64, u64),
    max: nat,
    step: StreamStep,
) -> bool {
    &&& step is Ready || step is FromSource || step is Failed
    &&& segment_advances(
        (before.0.drawn(), after.0.drawn()),
        (before.1, after.1),
        (before.2, after.2),
        match step {
            StreamStep::Ready(bytes) => bytes@,
            _ => Seq::empty(),
        },
    )
    &&& step matches StreamStep::Ready(bytes) ==> bytes@.len() <= max
    &&& if after.1 == 0 && outcome_of(step) == Outcome::Data(Seq::empty()) {
        &&& after.0.source() == before.0.source()
        &&& after.0.at_eof() == before.0.at_eof()
        &&& frame::same_place(before.0, after.0)
    } else {
        frame::moves(before.0, after.0, after.2 > 0 || max > 0, outcome_of(step))
    }
    &&& step matches StreamStep::FromSource(len) ==> after.1 > 0 && len == tape::max_nat(
        segment_room(after.1, after.2, max),
        HELPER_PIPE_BUFFER_SIZE as nat,
    )
    &&& step is Failed ==> after.1 > 0
}

/// What a read of at most `max` bytes does to a stream.
pub open spec fn stream_reads(
    before_stream: BlobReadStream,
    after_stream: BlobReadStream,
    max: nat,
    step: StreamStep,
) -> bool {
    match before_stream {
        BlobReadStream::Bytes(before) => {
            &&& after_stream matches BlobReadStream::Bytes(after)
            &&& buffer_reads(before, after, max, step)
        },
        BlobReadStream::ByteSegment { inner: before, limit: limit0 } => {
            &&& after_stream matches BlobReadStream::ByteSegment {
                inner: after,
                limit: limit1,
            }
            &&& if limit0 == 0 {
                &&& step matches StreamStep::Ready(bytes)
                &&& bytes@.len() == 0
                &&& after_stream == before_stream
            } else {
                &&& buffer_reads(
                    before,
                    after,
                    tape::min_nat(max, limit0 as nat),
                    step,
                )
                &&& limit1 == match step {
                    StreamStep::Ready(bytes) => limit0 - bytes@.len(),
                    _ => limit0 as int,
                }
            }
        },
        BlobReadStream::File => step == StreamStep::FromSource(max as usize) && after_stream
            == before_stream,
        BlobReadStream::S3 => step == StreamStep::FromSource(max as usize) && after_stream == before_stream,
        BlobReadStream::FileSegment { limit } => {
            &&& after_stream == before_stream
            &&& if limit == 0 {
                &&& step matches StreamStep::Ready(bytes)
                &&& bytes@.len() == 0
            } else {
                step == StreamStep::FromSource(
                    tape::min_nat(max, limit as nat) as usize,
                )
            }
        },
        BlobReadStream::Azure(before) => {
            &&& after_stream matches BlobReadStream::Azure(after)
            &&& chunks_read(before, after, max, step)
        },
        BlobReadStream::Lz4(before) => {
            &&& after_stream matches BlobReadStream::Lz4(after)
            &&& decoder_reads(before, after, max, step)
        },
        BlobReadStream::Lz4Segment {
            decoder: before,
            limit: limit0,
            bytes_to_discard: discard0,
        } => {
            &&& after_stream matches BlobReadStream::Lz4Segment {
                decoder: after,
                limit: limit1,
                bytes_to_discard: discard1,
            }
            &&& segment_reads(
                (before, limit0, discard0),
                (after, limit1, discard1),
                max,
                step,
            )
        },
    }
}

/// What becomes of a stream when bytes came from its source, and what is read at once.
pub open spec fn stream_takes_in(
    before_stream: BlobReadStream,
    after_stream: BlobReadStream,
    bytes: Vec<u8>,
    read: Option<Vec<u8>>,
) -> bool {
    match before_stream {
        BlobReadStream::FileSegment { limit } => {
            &&& read == Some(bytes)
            &&& after_stream == (BlobReadStream::FileSegment {
                limit: (limit - bytes@.len()) as u64,
            })
        },
        BlobReadStream::Lz4(before) => {
            &&& read is None
            &&& after_stream matches BlobReadStream::Lz4(after)
            &&& decoder_takes_in(before, after, bytes@)
        },
        BlobReadStream::Lz4Segment {
            decoder: before,
            limit: limit0,
            bytes_to_discard: discard0,
        } => {
            &&& read is None
            &&& after_stream matches BlobReadStream::Lz4Segment {
                decoder: after,
                limit: limit1,
                bytes_to_discard: discard1,
            }
            &&& decoder_takes_in(before, after, bytes@)
            &&& limit1 == limit0
            &&& discard1 == discard0
        },
        _ => read == Some(bytes) && after_stream == before_stream,
    }
}

/// What becomes of a stream when bytes were read from the file that its buffer is in.
pub open spec fn stream_takes_from_buffer(
    before_stream: BlobReadStream,
    after_stream: BlobReadStream,
    bytes: Seq<u8>,
) -> bool {
    match before_stream {
        BlobReadStream::Bytes(inner) => after_stream == BlobReadStream::Bytes(
            inner.file_at((inner.cursor() + bytes.len()) as u64),
        ),
        BlobReadStream::ByteSegment { inner, limit } => after_stream == (
        BlobReadStream::ByteSegment {
            inner: inner.file_at((inner.cursor() + bytes.len()) as u64),
            limit: (limit - bytes.len()) as u64,
        }),
        _ => true,
    }
}

impl BlobReadStream {
    /// Reads at most `max` bytes, or says what has to be done to read.
    pub fn poll_read(&mut self, max: usize) -> (step: StreamStep)
        requires
            old(self).well_formed(),
        ensures
            final(self).well_formed(),
            stream_reads(*old(self), *final(self), max as nat, step),
    {
        match self {
            BlobReadStream::Bytes(inner) => BlobReadStream::read_buffer(inner, max),
            BlobReadStream::ByteSegment { inner, limit } => {
                if *limit == 0 {
                    return StreamStep::Ready(Vec::new());
                }
                let room: usize = if *limit < max as u64 {
                    *limit as usize
                } else {
                    max
                };
                let step = BlobReadStream::read_buffer(inner, room);
                if let StreamStep::Ready(bytes) = &step {
                    *limit = *limit - bytes.len() as u64;
                }
                step
            },
            BlobReadStream::File => StreamStep::FromSource(max),
            BlobReadStream::S3 => StreamStep::FromSource(max),
            BlobReadStream::FileSegment { limit } => {
                if *limit == 0 {
                    StreamStep::Ready(Vec::new())
                } else if *limit < max as u64 {
                    StreamStep::FromSource(*limit as usize)
                } else {
                    StreamStep::FromSource(max)
                }
            },
            BlobReadStream::Azure(chunks) => chunks.poll_read(max),
            BlobReadStream::Lz4(decoder) => match decoder.read_inner(max) {
                DecodeStep::Ready(bytes) => StreamStep::Ready(bytes),
                DecodeStep::NeedInput(len) => StreamStep::FromSource(len),
                DecodeStep::Failed(error) => StreamStep::Failed(error),
            },
            BlobReadStream::Lz4Segment { decoder, limit, bytes_to_discard } => {
                match read_segment(decoder, limit, bytes_to_discard, max) {
                    DecodeStep::Ready(bytes) => StreamStep::Ready(bytes),
                    DecodeStep::NeedInput(len) => StreamStep::FromSource(len),
                    DecodeStep::Failed(error) => StreamStep::Failed(error),
                }
            },
        }
    }

    /// Takes in what was read from the source. The bytes of a file or a response
    /// are at once what is read; those of a compressed source are decoded by the
    /// next read.
    pub fn source_read(&mut self, bytes: Vec<u8>) -> (read: Option<Vec<u8>>)
        requires
            old(self).well_formed(),
            match *old(self) {
                BlobReadStream::File => true,
                BlobReadStream::S3 => true,
                BlobReadStream::FileSegment { limit } => bytes@.len() <= limit,
                BlobReadStream::Lz4(decoder) => bytes@.len() > 0 ==> !decoder.at_eof(),
                BlobReadStream::Lz4Segment { decoder, .. } => bytes@.len() > 0
                    ==> !decoder.at_eof(),
                _ => false,
            },
        ensures
            final(self).well_formed(),
            stream_takes_in(*old(self), *final(self), bytes, read),
    {
        match self {
            BlobReadStream::FileSegment { limit } => {
                *limit = *limit - bytes.len() as u64;
                Some(bytes)
            },
            BlobReadStream::Lz4(decoder) => {
                decoder.source_read(bytes.as_slice());
                None
            },
            BlobReadStream::Lz4Segment { decoder, .. } => {
                decoder.source_read(bytes.as_slice());
                None
            },
            _ => Some(bytes),
        }
    }

    /// Takes in what was read from the file that a buffer is in.
    pub fn buffer_read(&mut self, bytes: Vec<u8>) -> (read: Vec<u8>)
        requires
            match *old(self) {
                BlobReadStream::Bytes(inner) => inner.is_file() && inner.cursor() + bytes@.len()
                    <= u64::MAX,
                BlobReadStream::ByteSegment { inner, limit } => inner.is_file() && inner.cursor()
                    + bytes@.len() <= u64::MAX && bytes@.len() <= limit,
                _ => false,
            },
        ensures
            read == bytes,
            stream_takes_from_buffer(*old(self), *final(self), bytes@),
    {
        match self {
            BlobReadStream::Bytes(inner) => {
                inner.file_read(bytes.len());
            },
            BlobReadStream::ByteSegment { inner, limit } => {
                inner.file_read(bytes.len());
                *limit = *limit - bytes.len() as u64;
            },
            _ => {},
        }
        bytes
    }
}

/// What becomes of a decoder when bytes come from its source.
pub open spec fn decoder_takes_in(
    before: AsyncFrameDecoder,
    after: AsyncFrameDecoder,
    bytes: Seq<u8>,
) -> bool {
    &&& after.source() == before.source() + bytes
    &&& after.at_eof() == (before.at_eof() || bytes.len() == 0)
    &&& after.drawn() == before.drawn()
    &&& frame::same_place(before, after)
}

/// The first `limit` bytes from the cursor on, read in two parts, are those read
/// at once: a limit that is lowered by what was read stays a limit on the whole.
pub proof fn law_limited_reads_join(t: Tape, limit: nat, n: nat)
    requires
        n <= limit,
    ensures
        t.next(n) + t.advanced(t.next(n).len()).next((limit - t.next(n).len()) as nat) == t.next(
            limit,
        ),
{
    let k = t.next(n).len();
    assert(t.next(n) + t.advanced(k).next((limit - k) as nat) =~= t.next(limit));
}

/// What a segment of a buffer hands out in the end is what its range selects.
pub proof fn law_byte_segment_is_range(data: Seq<u8>, range: ByteRange)
    ensures
        (Tape { data, pos: range.start as nat }).next(range.spec_len()) == range.select(data),
{
    assert((Tape { data, pos: range.start as nat }).next(range.spec_len()) =~= range.select(data));
}

/// Reads at most `max` and at most `limit` bytes of a decoder's data.
fn read_limited(decoder: &mut AsyncFrameDecoder, limit: &mut u64, max: usize) -> (step: DecodeStep)
    requires
        old(decoder).well_formed(),
    ensures
        final(decoder).well_formed(),
        *old(limit) == 0 ==> {
            &&& step matches DecodeStep::Ready(data)
            &&& data@.len() == 0
            &&& *final(decoder) == *old(decoder)
            &&& *final(limit) == 0
        },
        *old(limit) > 0 ==> {
            let room = tape::min_nat(*old(limit) as nat, max as nat);
            &&& frame::reads(*old(decoder), *final(decoder), room, step.outcome())
            &&& step matches DecodeStep::NeedInput(len) ==> len == tape::max_nat(
                room,
                HELPER_PIPE_BUFFER_SIZE as nat,
            )
            &&& *final(limit) == match step {
                DecodeStep::Ready(data) => *old(limit) - data@.len(),
                _ => *old(limit) as int,
            }
        },
{
    if *limit == 0 {
        return DecodeStep::Ready(Vec::new());
    }
    let room: usize = if *limit < max as u64 {
        *limit as usize
    } else {
        max
    };
    let step = decoder.read_inner(room);
    if let DecodeStep::Ready(data) = &step {
        *limit = *limit - data.len() as u64;
    }
    step
}

/// The step of a stream that a decoder's step is.
pub open spec fn stream_step(step: DecodeStep) -> StreamStep {
    match step {
        DecodeStep::Ready(bytes) => StreamStep::Ready(bytes),
        DecodeStep::NeedInput(len) => StreamStep::FromSource(len),
        DecodeStep::Failed(error) => StreamStep::Failed(error),
    }
}

/// Reads at most `max` bytes of a segment, passing over what lies before it.
fn read_segment(
    decoder: &mut AsyncFrameDecoder,
    limit: &mut u64,
    discard: &mut u64,
    max: usize,
) -> (step: DecodeStep)
    requires
        old(decoder).well_formed(),
    ensures
        final(decoder).well_formed(),
        segment_reads(
            (*old(decoder), *old(limit), *old(discard)),
            (*final(decoder), *final(limit), *final(discard)),
            max as nat,
            stream_step(step),
        ),
{
    let ghost first = *decoder;
    let ghost drawn0 = decoder.drawn();
    let ghost limit0 = *limit;
    let ghost discard0 = *discard;
    assert(drawn0.skip(drawn0.len() as int) =~= Seq::<u8>::empty());
    while *discard > 0
        invariant
            first == *old(decoder),
            drawn0 == first.drawn(),
            limit0 == *old(limit),
            discard0 == *old(discard),
            decoder.well_formed(),
            decoder.source() == first.source(),
            decoder.at_eof() == first.at_eof(),
            frame::same_place(first, *decoder),
            segment_advances(
                (drawn0, decoder.drawn()),
                (limit0, *limit),
                (discard0, *discard),
                Seq::empty(),
            ),
        decreases *discard,
    {
        let room: usize = if *discard < HELPER_PIPE_BUFFER_SIZE as u64 {
            *discard as usize
        } else {
            HELPER_PIPE_BUFFER_SIZE
        };
        let ghost before = *decoder;
        let ghost before_limit = *limit;
        let step = read_limited(decoder, limit, room);
        proof {
            if before_limit > 0 {
                frame::law_reads_join(first, before, *decoder, true, step.outcome());
            }
            assert(decoder.drawn().skip(decoder.drawn().len() as int) =~= Seq::<u8>::empty());
        }
        match step {
            DecodeStep::Ready(data) => {
                if data.len() == 0 {
                    assert(data@ =~= Seq::<u8>::empty());
                    assert(decoder.drawn() =~= before.drawn());
                    return DecodeStep::Ready(data);
                }
                *discard = *discard - data.len() as u64;
            },
            _ => {
                return step;
            },
        }
    }
    let ghost before = *decoder;
    let ghost before_limit = *limit;
    let step = read_limited(decoder, limit, max);
    proof {
        if before_limit > 0 {
            frame::law_reads_join(
                first,
                before,
                *decoder,
                tape::min_nat(before_limit as nat, max as nat) > 0,
                step.outcome(),
            );
        }
        if let DecodeStep::Ready(data) = &step {
            assert(decoder.drawn().skip(decoder.drawn().len() - data@.len()) =~= data@);
            if data@.len() == 0 {
                assert(data@ =~= Seq::<u8>::empty());
                assert(decoder.drawn() =~= before.drawn());
            }
        } else {
            assert(decoder.drawn().skip(decoder.drawn().len() as int) =~= Seq::<u8>::empty());
        }
    }
    step
}

/// What is left to be read of a stream that is not compressed and comes in no pages, where
/// `disk` is the file that it reads from, if there is one.
pub open spec fn remaining(stream: BlobReadStream, disk: Tape) -> Seq<u8> {
    match stream {
        BlobReadStream::Bytes(buffer) => buffer.tape(disk).rest(),
        BlobReadStream::ByteSegment { inner, limit } => inner.tape(disk).next(limit as nat),
        BlobReadStream::FileSegment { limit } => disk.next(limit as nat),
        _ => disk.rest(),
    }
}

/// What is left of a range of a file that stands at the start of the range is what the
/// range selects.
pub proof fn law_file_stream_is_range(range: ByteRange, data: Seq<u8>)
    requires
        data.len() <= u64::MAX,
    ensures
        remaining(file_stream(range), Tape { data, pos: range.start as nat }) == range.select(data),
{
    assert(remaining(file_stream(range), Tape { data, pos: range.start as nat }) =~= range.select(
        data,
    ));
}

/// What is left of a range of a buffer whose cursor stands at the start of the range is
/// what the range selects, wherever the contents are.
pub proof fn law_byte_stream_is_range(buffer: JumboBytesMut, disk: Tape, range: ByteRange)
    requires
        buffer.tape(disk).pos == range.start,
        buffer.tape(disk).data.len() <= u64::MAX,
    ensures
        remaining(byte_stream(buffer, range), disk) == range.select(buffer.tape(disk).data),
{
    assert(remaining(byte_stream(buffer, range), disk) =~= range.select(buffer.tape(disk).data));
}

/// A read of a buffer or a file hands out the next of what is left, at most as many bytes
/// as were asked for, and none only where none is left or none were asked for. A source is
/// never asked for more than is left to be read or was asked for.
pub proof fn law_plain_stream_reads_on(
    before: BlobReadStream,
    after: BlobReadStream,
    disk: Tape,
    max: nat,
    step: StreamStep,
)
    requires
        stream_reads(before, after, max, step),
        max <= usize::MAX,
        before is Bytes || before is ByteSegment || before is File || before is FileSegment
            || before is S3,
    ensures
        step matches StreamStep::Ready(bytes) ==> {
            &&& bytes@ + remaining(after, disk) == remaining(before, disk)
            &&& bytes@.len() <= max
            &&& bytes@.len() == 0 ==> max == 0 || remaining(before, disk).len() == 0
        },
        !(step is Ready) ==> remaining(after, disk) == remaining(before, disk),
        step matches StreamStep::FromSource(n) ==> {
            &&& before is File || before is FileSegment || before is S3
            &&& n <= max
            &&& before matches BlobReadStream::FileSegment { limit } ==> n <= limit
            &&& n == 0 ==> max == 0
            &&& before is File || before is S3 ==> n == max
            &&& disk.next(n as nat) == remaining(before, disk).take(
                tape::min_nat(max, remaining(before, disk).len()) as int,
            )
        },
        step matches StreamStep::FromBuffer(n) ==> {
            &&& n <= max
            &&& before matches BlobReadStream::ByteSegment { limit, .. } ==> n <= limit
            &&& n == 0 ==> max == 0
        },
        before matches BlobReadStream::Bytes(buffer) ==> (buffer.is_ram() <==> step is Ready) && (
        buffer.is_file() <==> step is FromBuffer),
{
    match before {
        BlobReadStream::Bytes(buffer) => {
            if buffer.is_ram() {
                let t = buffer.tape(disk);
                assert(t.next(max) + t.advanced(t.next(max).len()).rest() =~= t.rest());
            }
        },
        BlobReadStream::ByteSegment { inner, limit } => {
            let t = inner.tape(disk);
            if limit == 0 {
                assert(t.next(0) =~= Seq::<u8>::empty());
                if let StreamStep::Ready(bytes) = step {
                    assert(bytes@ + remaining(after, disk) =~= remaining(before, disk));
                }
            } else if inner.is_ram() {
                law_limited_reads_join(t, limit as nat, tape::min_nat(max, limit as nat));
            }
        },
        BlobReadStream::FileSegment { limit } => {
            if limit == 0 {
                assert(disk.next(0) =~= Seq::<u8>::empty());
                if let StreamStep::Ready(bytes) = step {
                    assert(bytes@ + remaining(after, disk) =~= remaining(before, disk));
                }
            } else {
                let n = tape::min_nat(max, limit as nat);
                assert(disk.next(n) =~= remaining(before, disk).take(
                    tape::min_nat(max, remaining(before, disk).len()) as int,
                ));
            }
        },
        _ => {},
    }
}

/// Bytes that came from a file are what is read, and leave what follows them: however many
/// the file gave of those that were asked for.
pub proof fn law_plain_stream_takes_in(
    before: BlobReadStream,
    after: BlobReadStream,
    disk: Tape,
    n: nat,
    bytes: Vec<u8>,
    read: Option<Vec<u8>>,
)
    requires
        stream_takes_in(before, after, bytes, read),
        before is File || before is FileSegment || before is S3,
        bytes@ == disk.next(n),
        before matches BlobReadStream::FileSegment { limit } ==> n <= limit,
    ensures
        read == Some(bytes),
        bytes@ + remaining(after, disk.advanced(bytes@.len())) == remaining(before, disk),
{
    if let BlobReadStream::FileSegment { limit } = before {
        law_limited_reads_join(disk, limit as nat, n);
    } else {
        assert(bytes@ + disk.advanced(bytes@.len()).rest() =~= disk.rest());
    }
}

/// Bytes that came from the file of a buffer leave what follows them.
pub proof fn law_buffer_stream_takes_in(
    before: BlobReadStream,
    after: BlobReadStream,
    disk: Tape,
    n: nat,
    bytes: Seq<u8>,
)
    requires
        stream_takes_from_buffer(before, after, bytes),
        bytes == disk.next(n),
        before matches BlobReadStream::Bytes(buffer) ==> buffer.is_file() && buffer.goes_with(disk),
        before matches BlobReadStream::ByteSegment { inner, limit } ==> inner.is_file()
            && inner.goes_with(disk) && n <= limit,
        before is Bytes || before is ByteSegment,
    ensures
        bytes + remaining(after, disk.advanced(bytes.len())) == remaining(before, disk),
{
    if let BlobReadStream::ByteSegment { limit, .. } = before {
        law_limited_reads_join(disk, limit as nat, n);
    } else {
        assert(bytes + disk.advanced(bytes.len()).rest() =~= disk.rest());
    }
}

/// A buffer of which a range is to be read stands at the start of the range, and holds what
/// it held; one in a file is sought there.
pub proof fn law_range_is_sought(
    before: JumboBytesMut,
    after: JumboBytesMut,
    disk: Tape,
    range: ByteRange,
    step: FileStep,
)
    requires
        seeks_to_range(before, after, range, step),
        before.is_ram() || before.is_file(),
    ensures
        before.is_ram() ==> step is Ready && after.tape(disk) == before.tape(disk).at(
            range.start as nat,
        ),
        before.is_file() ==> step is OnFile && after == before,
{
}

/// A response is a stream just if its first chunk came: it then hands out that chunk
/// first. One that has nothing, or whose service has nothing of the name, is no blob, and
/// only another failure is an error.
pub proof fn law_first_chunk_decides(
    first: FirstChunk,
    stream: Result<Option<BlobReadStream>, IoError>,
)
    requires
        first_chunk_makes(first, stream),
    ensures
        first matches FirstChunk::Got(chunk) ==> {
            &&& stream matches Ok(Some(BlobReadStream::Azure(chunks)))
            &&& chunks.at_hand() == bytes_buf::content(chunk)
            &&& chunks.in_page
        },
        first is NotFound || first is Nothing ==> (stream matches Ok(none) && none is None),
        stream is Err <==> first is Failed,
        first matches FirstChunk::Failed(error) ==> stream == Err::<Option<BlobReadStream>, _>(
            error,
        ),
{
}

/// Where the source of compressed data is asked for more, it is asked for 16 KiB, or for as
/// much as is to be read if that is more: never for nothing, which would be taken for its
/// end.
pub proof fn law_source_is_asked_for_enough(
    before: BlobReadStream,
    after: BlobReadStream,
    max: nat,
    n: usize,
)
    requires
        stream_reads(before, after, max, StreamStep::FromSource(n)),
        before is Lz4 || before is Lz4Segment,
    ensures
        n >= 16384,
        before is Lz4 && max <= 16384 ==> n == 16384,
        before is Lz4 && max > 16384 ==> n == max,
        before is Lz4Segment ==> n <= tape::max_nat(max, 16384),
{
}

/// A failure to fetch a chunk or a page is told as it is, and leaves all as it was, so that
/// it can be fetched again. Only where there are no more pages the stream has ended.
pub proof fn law_fetch_failures_are_told(
    before: PagedChunks,
    after: PagedChunks,
    chunk: Fetched<bytes::Bytes>,
    page: Fetched<()>,
    max: nat,
    step: StreamStep,
)
    ensures
        chunk_taken(before, after, chunk, max, step) ==> {
            &&& chunk matches Fetched::Failed(error) ==> step == StreamStep::Failed(error) && after
                == before
            &&& step is Failed ==> chunk is Failed
            &&& step is NextPage <==> chunk is End
            &&& step matches StreamStep::Ready(bytes) ==> bytes@.len() <= max && (bytes@.len() == 0
                ==> max == 0)
        },
        page_taken(before, after, page, step) ==> {
            &&& page matches Fetched::Failed(error) ==> step == StreamStep::Failed(error)
            &&& step is Failed ==> page is Failed
            &&& step is Ready <==> page is End
            &&& step matches StreamStep::Ready(bytes) ==> bytes@.len() == 0
        },
{
}

} // verus!
