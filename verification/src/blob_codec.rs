//! The form in which blobs are stored: the bytes, compressed or not, and behind
//! them a marker that says which.
use vstd::prelude::*;
use vstd::bytes::*;
use crate::foreign::lz4;
use crate::foreign::lz4::{compress_into, get_maximum_output_size};
use crate::frame::AsyncFrameEncoder;
use crate::tape::Tape;

verus! {

/// The marker of data that is not compressed.
pub const NONE_MARKER: u8 = 0x00;

/// The marker of an LZ4 block behind its four-byte size.
pub const LZ4_MARKER: u8 = 0xa1;

/// The marker of an LZ4 frame behind the eight-byte size of its data.
pub const LZ4_STREAM_MARKER: u8 = 0xa3;

/// The number of bytes of a block's size.
pub const U32_LEN: usize = 4;

/// The least number of bytes that a compressed block takes with its size and
/// its marker.
pub const MIN_BLOCK_LEN: u64 = 6;

/// The least number of bytes that a compressed frame takes with its size and its
/// marker.
pub const MIN_STREAM_LEN: u64 = 10;

/// How new blobs are compressed.
#[derive(Clone, Copy, PartialEq, Eq, Debug, Structural)]
pub enum CompressionAlgo {
    Uncompressed,
    Lz4,
}

/// The data that stored bytes stand for, unless they are corrupt. Nothing stands
/// for nothing; bytes without a marker that fits them stand for themselves.
pub open spec fn stored_content(raw: Seq<u8>) -> Option<Seq<u8>> {
    if raw.len() == 0 {
        Some(raw)
    } else if raw.last() == NONE_MARKER {
        Some(raw.drop_last())
    } else if raw.last() == LZ4_MARKER && raw.len() >= MIN_BLOCK_LEN {
        lz4::unblock(raw.drop_last())
    } else if raw.last() == LZ4_STREAM_MARKER && raw.len() >= MIN_STREAM_LEN {
        lz4::unframe(raw.drop_last().skip(8))
    } else {
        Some(raw)
    }
}

/// The length of the data that stored bytes stand for, as the stored bytes tell
/// it without being decompressed.
pub open spec fn stored_length(raw: Seq<u8>) -> nat {
    if raw.len() == 0 {
        0
    } else if raw.last() == NONE_MARKER {
        (raw.len() - 1) as nat
    } else if raw.last() == LZ4_MARKER && raw.len() >= MIN_BLOCK_LEN {
        spec_u32_from_le_bytes(raw.take(4)) as nat
    } else if raw.last() == LZ4_STREAM_MARKER && raw.len() >= MIN_STREAM_LEN {
        spec_u64_from_le_bytes(raw.take(8)) as nat
    } else {
        raw.len()
    }
}

/// Whether `raw` is `data` as it is stored without compression.
pub open spec fn is_plain(raw: Seq<u8>, data: Seq<u8>) -> bool {
    raw == data.push(NONE_MARKER)
}

/// Whether `raw` is `data` as it is stored in a compressed block.
pub open spec fn is_block(raw: Seq<u8>, data: Seq<u8>) -> bool {
    &&& data.len() <= u32::MAX
    &&& raw.len() >= MIN_BLOCK_LEN
    &&& raw.last() == LZ4_MARKER
    &&& raw.take(4) == spec_u32_to_le_bytes(data.len() as u32)
    &&& lz4::unblock(raw.drop_last()) == Some(data)
}

/// Whether `raw` is `data` as it is stored in a compressed frame.
pub open spec fn is_stream(raw: Seq<u8>, data: Seq<u8>) -> bool {
    &&& data.len() <= u64::MAX
    &&& raw.len() >= MIN_STREAM_LEN
    &&& raw.last() == LZ4_STREAM_MARKER
    &&& raw.take(8) == spec_u64_to_le_bytes(data.len() as u64)
    &&& lz4::unframe(raw.drop_last().skip(8)) == Some(data)
}

/// Whether `raw` is `data` as it is stored in one of the three forms.
pub open spec fn is_stored(raw: Seq<u8>, data: Seq<u8>) -> bool {
    is_plain(raw, data) || is_block(raw, data) || is_stream(raw, data)
}

/// What was stored is read back, and so is its length.
pub proof fn law_stored_is_read_back(raw: Seq<u8>, data: Seq<u8>)
    requires
        is_stored(raw, data),
    ensures
        stored_content(raw) == Some(data),
        stored_length(raw) == data.len(),
{
    lemma_auto_spec_u32_to_from_le_bytes();
    lemma_auto_spec_u64_to_from_le_bytes();
    if is_plain(raw, data) {
        assert(raw.drop_last() =~= data);
    } else if is_block(raw, data) {
        assert(spec_u32_to_le_bytes(data.len() as u32).len() == 4);
    } else {
        assert(spec_u64_to_le_bytes(data.len() as u64).len() == 8);
    }
}

/// The marker of uncompressed data, written at the end of a buffer that holds the
/// data, makes the buffer hold what is stored for it.
pub proof fn law_appended_marker_is_stored(t: Tape)
    ensures
        is_stored(t.at(t.data.len()).written(seq![NONE_MARKER]).data, t.data),
{
    assert(t.at(t.data.len()).written(seq![NONE_MARKER]).data =~= t.data.push(NONE_MARKER));
}

/// The size of the data, the frame that an encoder handed out for it, and the
/// marker, one behind the other, are what is stored for it.
pub proof fn law_encoded_stream_is_stored(encoder: AsyncFrameEncoder, raw: Seq<u8>)
    requires
        encoder.well_formed(),
        encoder.is_shut_down(),
        encoder.waiting().len() == 0,
        encoder.data().len() <= u64::MAX,
        raw == (spec_u64_to_le_bytes(encoder.data().len() as u64) + encoder.delivered()).push(
            LZ4_STREAM_MARKER,
        ),
    ensures
        is_stored(raw, encoder.data()),
{
    lemma_auto_spec_u64_to_from_le_bytes();
    crate::frame::law_encoded_decodes(encoder);
    assert(raw.drop_last().skip(8) =~= encoder.delivered());
    assert(raw.take(8) =~= spec_u64_to_le_bytes(encoder.data().len() as u64));
}

/// Compresses data into a block, with its size before it and its marker behind.
pub fn compress_block(data: &[u8]) -> (raw: Vec<u8>)
    requires
        data@.len() <= u32::MAX,
        lz4::block_bound(data@.len()) + 5 <= usize::MAX,
    ensures
        is_block(raw@, data@),
{
    let size: u32 = data.len() as u32;
    let room: usize = get_maximum_output_size(data.len()) + U32_LEN + 1;
    let prefix = u32_to_le_bytes(size);
    let mut raw: Vec<u8> = Vec::new();
    raw.extend_from_slice(prefix.as_slice());
    assert(raw@ =~= prefix@);
    raw.resize(room, LZ4_MARKER);
    let len: usize = compress_into(data, &mut raw, U32_LEN);
    proof {
        lemma_auto_spec_u32_to_from_le_bytes();
        assert(raw@.take(4) =~= prefix@);
    }
    let ghost filled = raw@;
    raw.truncate(U32_LEN + len);
    assert(raw@ =~= prefix@ + filled.subrange(4, 4 + len));
    raw.push(LZ4_MARKER);
    assert(raw@.drop_last() =~= prefix@ + filled.subrange(4, 4 + len));
    assert(raw@.take(4) =~= prefix@);
    raw
}

/// The eight bytes that go before a compressed frame: the length of its data.
pub fn stream_prefix(len: u64) -> (prefix: Vec<u8>)
    ensures
        prefix@ == spec_u64_to_le_bytes(len),
{
    u64_to_le_bytes(len)
}

/// The last byte tells how data is stored: behind zero is the data itself; a block is
/// there with its size, and a frame with its own. Whatever ends otherwise, or is too
/// short for how it ends, is the data as it stands.
pub proof fn law_marker_tells_the_form(raw: Seq<u8>)
    ensures
        raw.len() == 0 ==> stored_content(raw) == Some(raw) && stored_length(raw) == 0,
        raw.len() > 0 && raw.last() == 0 ==> {
            &&& stored_content(raw) is Some
            &&& (stored_content(raw)->0).push(0u8) == raw
            &&& stored_length(raw) + 1 == raw.len()
        },
        raw.len() >= 6 && raw.last() == 0xa1 ==> stored_content(raw) == lz4::unblock(
            raw.drop_last(),
        ) && stored_length(raw) == spec_u32_from_le_bytes(raw.take(4)),
        raw.len() >= 10 && raw.last() == 0xa3 ==> stored_content(raw) == lz4::unframe(
            raw.subrange(8, raw.len() - 1),
        ) && stored_length(raw) == spec_u64_from_le_bytes(raw.take(8)),
        raw.len() > 0 && raw.last() != 0 && (raw.last() != 0xa1 || raw.len() < 6) && (raw.last()
            != 0xa3 || raw.len() < 10) ==> stored_content(raw) == Some(raw) && stored_length(raw)
            == raw.len(),
{
    if raw.len() > 0 && raw.last() == 0 {
        assert(raw.drop_last().push(0u8) =~= raw);
    }
    if raw.len() >= 10 {
        assert(raw.drop_last().skip(8) =~= raw.subrange(8, raw.len() - 1));
    }
}

/// Data that is stored without compression is the data with a zero behind it, and only
/// that.
pub proof fn law_plain_form(data: Seq<u8>, raw: Seq<u8>)
    ensures
        is_plain(raw, data) <==> raw.len() == data.len() + 1 && raw.last() == 0 && data.is_prefix_of(
            raw,
        ),
        is_stored(data.push(0u8), data),
{
    if raw.len() == data.len() + 1 && raw.last() == 0 && data.is_prefix_of(raw) {
        assert(raw =~= data.push(0u8));
    }
    if is_plain(raw, data) {
        assert(data =~= raw.take(data.len() as int));
    }
}

} // verus!
