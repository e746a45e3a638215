//! LZ4 compression: the block and the frame format of `lz4_flex`.
use vstd::prelude::*;
use std::io::{Read, Write};
use lz4_flex::frame::Error as Bad;
use crate::helper_pipe::AsyncHelperPipe;

verus! {

/// The data that `lz4_flex::decompress_size_prepended` makes of its argument,
/// unless it fails.
pub uninterp spec fn unblock(bytes: Seq<u8>) -> Option<Seq<u8>>;

/// `lz4_flex::block::DecompressError`.
#[verifier::external_type_specification]
#[verifier::external_body]
pub struct ExDecompressError(lz4_flex::block::DecompressError);

/// `lz4_flex::decompress_size_prepended`: reads the size of the data, as four
/// little-endian bytes, and decompresses the block behind it. Bytes that are no
/// such block are answered with an error.
#[verifier::external_body]
pub(crate) fn decompress_size_prepended(bytes: &[u8]) -> (data: Result<
    Vec<u8>,
    lz4_flex::block::DecompressError,
>)
    ensures
        data is Ok <==> unblock(bytes@) is Some,
        data matches Ok(data) ==> unblock(bytes@) == Some(data@),
{
    lz4_flex::decompress_size_prepended(bytes)
}

/// The text of a `DecompressError`.
#[verifier::external_body]
pub(crate) fn decompress_error_text(error: &lz4_flex::block::DecompressError) -> (text: String) {
    format!("{error}")
}

/// The room that a compressed block may take at most.
pub open spec fn block_bound(len: nat) -> nat {
    20 + len * 110 / 100
}

/// `lz4_flex::block::get_maximum_output_size`: twenty bytes more than eleven
/// tenths of the length.
#[verifier::external_body]
pub(crate) fn get_maximum_output_size(len: usize) -> (bound: usize)
    requires
        len * 110 <= u64::MAX,
        block_bound(len as nat) <= usize::MAX,
    ensures
        bound == block_bound(len as nat),
{
    lz4_flex::block::get_maximum_output_size(len)
}

/// `lz4_flex::compress_into`: compresses `input` into the room that `output` has
/// behind `at`, and returns the number of bytes that the block takes. Behind its
/// size, the block decompresses to the input. A block is never empty; what else
/// it looks like depends on the machine, and so does what the room behind it
/// holds.
#[verifier::external_body]
pub(crate) fn compress_into(input: &[u8], output: &mut Vec<u8>, at: usize) -> (len: usize)
    requires
        at + block_bound(input@.len()) <= old(output)@.len(),
    ensures
        final(output)@.len() == old(output)@.len(),
        final(output)@.take(at as int) == old(output)@.take(at as int),
        1 <= len,
        at + len <= final(output)@.len(),
        input@.len() <= u32::MAX ==> unblock(
            vstd::bytes::spec_u32_to_le_bytes(input@.len() as u32) + final(output)@.subrange(
                at as int,
                at + len,
            ),
        ) == Some(input@),
{
    lz4_flex::compress_into(input, &mut output[at..]).expect("the room suffices")
}

/// The data that a `lz4_flex::frame::FrameDecoder` makes of compressed bytes,
/// from the first of them to the place where it says that there is no more,
/// unless it fails before.
pub uninterp spec fn unframe(bytes: Seq<u8>) -> Option<Seq<u8>>;

/// `lz4_flex::frame::FrameEncoder`, writing to memory.
#[verifier::external_body]
pub struct FrameWriter {
    inner: lz4_flex::frame::FrameEncoder<Vec<u8>>,
}

/// The data that an encoder has taken in.
pub uninterp spec fn taken_in(writer: FrameWriter) -> Seq<u8>;

/// The compressed bytes that an encoder has handed out.
pub uninterp spec fn handed_out(writer: FrameWriter) -> Seq<u8>;

/// `FrameEncoder::new`: an encoder that has taken in nothing.
#[verifier::external_body]
pub(crate) fn frame_writer() -> (writer: FrameWriter)
    ensures
        taken_in(writer) == Seq::<u8>::empty(),
        handed_out(writer) == Seq::<u8>::empty(),
{
    FrameWriter { inner: lz4_flex::frame::FrameEncoder::new(Vec::new()) }
}

/// `FrameEncoder::write`: takes in all of `data`, and hands out the compressed
/// bytes that are ready. Which these are depends on the machine.
#[verifier::external_body]
pub(crate) fn frame_write(writer: &mut FrameWriter, data: &[u8]) -> (bytes: Vec<u8>)
    ensures
        taken_in(*final(writer)) == taken_in(*old(writer)) + data@,
        handed_out(*final(writer)) == handed_out(*old(writer)) + bytes@,
{
    writer.inner.write(data).expect("memory takes every byte");
    std::mem::take(writer.inner.get_mut())
}

/// `FrameEncoder::finish`: hands out the last compressed bytes, among them the
/// mark that ends a frame. All that was handed out decodes to all that was taken
/// in. A decoder takes it to its last byte, and has then come to the end of a frame.
#[verifier::external_body]
pub(crate) fn frame_finish(writer: FrameWriter) -> (bytes: Vec<u8>)
    ensures
        bytes@.len() >= 4,
        unframe(handed_out(writer) + bytes@) == Some(taken_in(writer)),
        stop_at(Seq::empty(), handed_out(writer) + bytes@) == handed_out(writer).len()
            + bytes@.len(),
        !goes_on(Seq::empty(), handed_out(writer) + bytes@),
{
    writer.inner.finish().expect("memory takes every byte")
}

/// `lz4_flex::frame::FrameDecoder`, reading from a pipe.
#[verifier::external_body]
pub struct FrameReader {
    inner: lz4_flex::frame::FrameDecoder<AsyncHelperPipe>,
}

/// The bytes that were put into a decoder's pipe and not forgotten since.
pub uninterp spec fn pipe_bytes(reader: FrameReader) -> Seq<u8>;

/// How many of the bytes in its pipe a decoder has read.
pub uninterp spec fn pipe_read(reader: FrameReader) -> nat;

/// Whether more bytes may come into a decoder's pipe.
pub uninterp spec fn pipe_open(reader: FrameReader) -> bool;

/// The compressed bytes that a decoder took until it last stopped: until it said
/// that there is no more data, or failed.
pub uninterp spec fn left(reader: FrameReader) -> Seq<u8>;

/// The compressed bytes that a decoder has worked on since it last stopped: those
/// that the reads took out of its pipe that handed out data.
pub uninterp spec fn settled(reader: FrameReader) -> Seq<u8>;

/// The data that a decoder has handed out since it last stopped.
pub uninterp spec fn drawn(reader: FrameReader) -> Seq<u8>;

/// Whether a decoder is within a frame, and goes on with a block.
pub uninterp spec fn in_frame(reader: FrameReader) -> bool;

/// Whether a decoder has stopped and does not go on with a block.
pub uninterp spec fn spent(reader: FrameReader) -> bool;

/// Whether a decoder was left without bytes before it was within a frame. How much
/// of the frame's header it has taken in is then unknown, and it is of no further
/// use.
pub uninterp spec fn broken_off(reader: FrameReader) -> bool;

/// The data that a decoder which has stopped behind `past` hands out of compressed
/// bytes until it stops again: it has to wait for more of them, it fails, or it says
/// that there is no more data. A new decoder has stopped behind nothing.
pub uninterp spec fn yielded(past: Seq<u8>, bytes: Seq<u8>) -> Seq<u8>;

/// How many of the compressed bytes such a decoder has taken when it fails or says
/// that there is no more data.
pub uninterp spec fn stop_at(past: Seq<u8>, bytes: Seq<u8>) -> nat;

/// Whether a decoder which has stopped behind `past`, and has stopped again behind
/// `taken`, is within a frame and goes on with a block: it failed on a block, or met
/// an empty one. It does not where a frame or the compressed bytes came to an end, or
/// where it met no frame.
pub uninterp spec fn goes_on(past: Seq<u8>, taken: Seq<u8>) -> bool;

/// The length of a frame's header that a decoder has read: four bytes in the legacy
/// format, and otherwise seven, or fifteen with the size of the contents in it.
pub open spec fn header_len(bytes: Seq<u8>) -> int {
    if bytes.len() >= 4 && bytes.take(4) == seq![0x02u8, 0x21u8, 0x4cu8, 0x18u8] {
        4
    } else if bytes.len() >= 5 && bytes[4] as int / 8 % 2 == 1 {
        15
    } else {
        7
    }
}

/// Whether a read that took these bytes, and a frame's header first unless it was
/// within one, met a block: four bytes that are not all zero. Zeroes end a frame.
pub open spec fn met_block(within: bool, taken: Seq<u8>) -> bool {
    let at = if within {
        0
    } else {
        header_len(taken)
    };
    taken.len() >= at + 4 && taken.subrange(at, at + 4) != seq![0u8, 0u8, 0u8, 0u8]
}

/// The compressed bytes that a decoder has worked on since it last stopped, and those
/// that it has before it.
pub open spec fn fed(reader: FrameReader) -> Seq<u8> {
    settled(reader) + pipe_bytes(reader).skip(pipe_read(reader) as int)
}

/// Whether `bytes` may be the compressed bytes as a whole from where a decoder last
/// stopped, as far as its pipe shows them.
pub open spec fn may_be_whole(bytes: Seq<u8>, reader: FrameReader) -> bool {
    if pipe_open(reader) {
        fed(reader).is_prefix_of(bytes)
    } else {
        bytes == fed(reader)
    }
}

/// The bytes that a read took out of a decoder's pipe.
pub open spec fn taken_by(before: FrameReader, after: FrameReader) -> Seq<u8> {
    pipe_bytes(before).subrange(pipe_read(before) as int, pipe_read(after) as int)
}

/// `FrameDecoder::new`: a decoder that has worked on nothing.
#[verifier::external_body]
pub(crate) fn frame_reader(pipe: AsyncHelperPipe) -> (reader: FrameReader)
    ensures
        pipe_bytes(reader) == pipe.buffer@,
        pipe_read(reader) == pipe.read,
        pipe_open(reader) == pipe.open,
        left(reader) == Seq::<u8>::empty(),
        settled(reader) == Seq::<u8>::empty(),
        drawn(reader) == Seq::<u8>::empty(),
        !in_frame(reader),
        !spent(reader),
        !broken_off(reader),
{
    FrameReader { inner: lz4_flex::frame::FrameDecoder::new(pipe) }
}

/// `FrameDecoder::get_mut`: the pipe that a decoder reads from.
#[verifier::external_body]
pub(crate) fn frame_pipe(reader: &mut FrameReader) -> (pipe: &mut AsyncHelperPipe)
    ensures
        pipe.buffer@ == pipe_bytes(*old(reader)),
        pipe.read == pipe_read(*old(reader)),
        pipe.open == pipe_open(*old(reader)),
        pipe_bytes(*final(reader)) == final(pipe).buffer@,
        pipe_read(*final(reader)) == final(pipe).read,
        pipe_open(*final(reader)) == final(pipe).open,
        left(*final(reader)) == left(*old(reader)),
        settled(*final(reader)) == settled(*old(reader)),
        drawn(*final(reader)) == drawn(*old(reader)),
        in_frame(*final(reader)) == in_frame(*old(reader)),
        spent(*final(reader)) == spent(*old(reader)),
        broken_off(*final(reader)) == broken_off(*old(reader)),
{
    reader.inner.get_mut()
}

/// What a decoder has to say.
#[derive(Debug)]
pub enum FrameRead {
    /// The next data; none if there is no more.
    Data(Vec<u8>),
    /// The pipe is empty.
    WouldBlock,
    /// Something is wrong with a block, or with the end of a frame.
    BadBlock(std::io::Error),
    /// There is no frame, or the compressed bytes end within one.
    BadFrame(std::io::Error),
}

/// `FrameDecoder::read`: at most `max` bytes of data.
///
/// It takes bytes out of the pipe from where the last read stopped, and passes on
/// that the pipe is empty only while that is open. It stops, for whatever reason, only
/// once all the data is out that the bytes give: every block is decoded as soon as it
/// is there as a whole, and is handed out to its end before the next one is begun;
/// further bytes only add to what comes out. Where all the compressed bytes of a new
/// decoder decode to some data, it does not fail, and what it hands out is that data
/// from the start on. Where it says that there is no more, the compressed bytes decode
/// to what it has handed out. Where there are no compressed bytes and none will come,
/// there is no data.
///
/// A read that the pipe could not serve is made again from where it began. Within a
/// frame the decoder then begins again with the block it had begun with; a header is
/// remembered as soon as it is read, and would be met twice.
///
/// Behind a block that failed, or that is empty, the decoder goes on with the next
/// one. A decoder that has come to the end of a frame is not read again: it would go
/// on with a frame behind it, in buffers that were made for the first.
#[verifier::external_body]
pub(crate) fn frame_read(reader: &mut FrameReader, max: usize) -> (read: FrameRead)
    requires
        0 < max <= i32::MAX,
        pipe_read(*old(reader)) <= pipe_bytes(*old(reader)).len(),
        !spent(*old(reader)),
        !broken_off(*old(reader)),
    ensures
        pipe_bytes(*final(reader)) == pipe_bytes(*old(reader)),
        pipe_open(*final(reader)) == pipe_open(*old(reader)),
        pipe_read(*old(reader)) <= pipe_read(*final(reader)) <= pipe_bytes(*old(reader)).len(),
        read matches FrameRead::Data(data) ==> data@.len() <= max,
        read is Data && !stops(read) ==> {
            &&& left(*final(reader)) == left(*old(reader))
            &&& settled(*final(reader)) == settled(*old(reader)) + taken_by(
                *old(reader),
                *final(reader),
            )
            &&& drawn(*final(reader)) == drawn(*old(reader)) + data_of(read)
            &&& settled(*final(reader)).len() > 0
            &&& in_frame(*final(reader))
            &&& !spent(*final(reader))
            &&& !broken_off(*final(reader))
        },
        fed(*old(reader)).len() == 0 && !pipe_open(*old(reader)) ==> read is Data && stops(read),
        read is WouldBlock ==> {
            &&& pipe_open(*old(reader))
            &&& left(*final(reader)) == left(*old(reader))
            &&& settled(*final(reader)) == settled(*old(reader))
            &&& drawn(*final(reader)) == drawn(*old(reader))
            &&& in_frame(*final(reader)) == in_frame(*old(reader))
            &&& !spent(*final(reader))
            &&& broken_off(*final(reader)) == !in_frame(*old(reader))
        },
        stops(read) ==> {
            let taken = settled(*old(reader)) + taken_by(*old(reader), *final(reader));
            &&& left(*final(reader)) == left(*old(reader)) + taken
            &&& settled(*final(reader)) == Seq::<u8>::empty()
            &&& drawn(*final(reader)) == Seq::<u8>::empty()
            &&& in_frame(*final(reader)) == goes_on(left(*old(reader)), taken)
            &&& spent(*final(reader)) == !in_frame(*final(reader))
            &&& !broken_off(*final(reader))
            &&& taken.len() == stop_at(left(*old(reader)), fed(*old(reader)))
        },
        read is WouldBlock || stops(read) ==> drawn(*old(reader)) == yielded(
            left(*old(reader)),
            fed(*old(reader)),
        ),
        stops(read) ==> in_frame(*final(reader)) == match read {
            FrameRead::Data(_) => met_block(
                in_frame(*old(reader)),
                taken_by(*old(reader), *final(reader)),
            ),
            FrameRead::BadBlock(_) => true,
            _ => false,
        },
        forall|bytes: Seq<u8>|
            #![trigger may_be_whole(bytes, *old(reader))]
            may_be_whole(bytes, *old(reader)) ==> {
                &&& (drawn(*old(reader)) + data_of(read)).is_prefix_of(
                    yielded(left(*old(reader)), bytes),
                )
                &&& left(*old(reader)).len() == 0 && unframe(bytes) is Some ==> !(
                read is BadBlock) && !(read is BadFrame) && (drawn(*old(reader)) + data_of(
                    read,
                )).is_prefix_of(unframe(bytes)->0)
                &&& left(*old(reader)).len() == 0 && stops(read) && read is Data
                    ==> unframe(bytes) == Some(drawn(*old(reader)))
            },
{
    let mut data = vec![0u8; max];
    let error = match reader.inner.read(&mut data) {
        Ok(len) => {
            data.truncate(len);
            return FrameRead::Data(data);
        },
        Err(error) => error,
    };
    match error.get_ref().and_then(|e| e.downcast_ref::<lz4_flex::frame::Error>()) {
        None if error.kind() == std::io::ErrorKind::WouldBlock => FrameRead::WouldBlock,
        Some(Bad::BlockTooBig | Bad::BlockChecksumError | Bad::DecompressionError(_)) => FrameRead::BadBlock(error),
        Some(Bad::ContentLengthError { .. } | Bad::ContentChecksumError) => FrameRead::BadBlock(error),
        _ => FrameRead::BadFrame(error),
    }
}

/// The data that came of a read.
pub open spec fn data_of(read: FrameRead) -> Seq<u8> {
    match read {
        FrameRead::Data(data) => data@,
        _ => Seq::empty(),
    }
}

/// Whether a read says that there is no more data, or fails.
pub open spec fn stops(read: FrameRead) -> bool {
    match read {
        FrameRead::Data(data) => data@.len() == 0,
        FrameRead::WouldBlock => false,
        _ => true,
    }
}

} // verus!
