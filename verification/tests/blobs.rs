use blob_store::blob_codec::{
    compress_block, stream_prefix, CompressionAlgo, LZ4_MARKER, LZ4_STREAM_MARKER, NONE_MARKER,
};
use blob_store::blob_store::{
    block_size, decompress_block, length_query, method_query, result_length, stream_result_length,
    stream_size, BlobStore, GetStep, LengthStep, MethodStep, PutStep, Store, StoreError,
};
use blob_store::blob_writer::{BlobWriter, WriterStep, COPY_CHUNK_LEN};
use blob_store::byte_range::ByteRange;
use blob_store::frame::{AsyncFrameEncoder, EncodeStep, FlushStep};
use blob_store::jumbo::{JumboBytesMut, JumboBytesMutInner, SpillSettings};

fn words(len: usize) -> Vec<u8> {
    b"the quick brown fox jumps over the lazy dog ".iter().copied().cycle().take(len).collect()
}

fn stored_plain(data: &[u8]) -> Vec<u8> {
    let mut raw = data.to_vec();
    raw.push(NONE_MARKER);
    raw
}

fn stored_stream(data: &[u8]) -> Vec<u8> {
    let mut encoder = AsyncFrameEncoder::new();
    let mut raw = stream_prefix(data.len() as u64);
    let _ = encoder.poll_write(data);
    encoder.poll_shutdown();
    if let FlushStep::Write(bytes) = encoder.poll_flush_destination() {
        raw.extend(bytes);
    }
    raw.push(LZ4_STREAM_MARKER);
    raw
}

fn slice(data: &[u8], range: ByteRange) -> Vec<u8> {
    let start = (range.start as usize).min(data.len());
    let end = (range.end.min(data.len() as u64) as usize).max(start);
    data[start..end].to_vec()
}

#[test]
fn stored_blobs_are_read_back() {
    for data in [Vec::new(), b"x".to_vec(), words(10_000)] {
        for raw in [stored_plain(&data), compress_block(&data), stored_stream(&data)] {
            assert_eq!(BlobStore::get_blob_length(&raw), data.len() as u64);
            for range in [
                ByteRange::full(),
                ByteRange::new(0, 1),
                ByteRange::new(100, 200),
                ByteRange::new(9_990, 20_000),
                ByteRange::new(200, 100),
                ByteRange::new(1 << 40, u64::MAX),
            ] {
                let (read, _) = BlobStore::get_blob_vec(&raw, range).unwrap();
                assert!(read == slice(&data, range));
            }
        }
    }
}

#[test]
fn blocks_carry_size_and_marker() {
    let raw = compress_block(b"");
    assert_eq!(&raw[..4], &[0, 0, 0, 0]);
    assert_eq!(raw.len(), 6);
    assert_eq!(raw.last(), Some(&LZ4_MARKER));
    let raw = compress_block(&words(1000));
    assert_eq!(&raw[..4], &[0xe8, 3, 0, 0]);
    assert_eq!(raw.last(), Some(&0xa1));
    assert!(raw.len() < 200);
    assert_eq!(stored_stream(b"abc").last(), Some(&0xa3));
    assert_eq!(stream_prefix(258), [2, 1, 0, 0, 0, 0, 0, 0]);
}

#[test]
fn reported_lengths_follow_the_range() {
    let data = words(1000);
    let reported = |raw: &[u8], start, end| {
        BlobStore::get_blob_vec(raw, ByteRange::new(start, end)).unwrap().1
    };
    assert_eq!(reported(&stored_plain(&data), 990, 2000), 10);
    assert_eq!(reported(&stored_plain(&data), 2000, 3000), 0);
    assert_eq!(reported(&compress_block(&data), 0, 10), 10);
    assert_eq!(reported(&compress_block(&data), 0, 5000), 1000);
    assert_eq!(reported(&stored_stream(&data), 10, 20), 10);
    assert_eq!(reported(&stored_stream(&data), 0, u64::MAX), 1000);
    assert_eq!(result_length(ByteRange::new(5, 3), 7), 0);
}

#[test]
fn unmarked_and_empty_blobs_stand_for_themselves() {
    assert_eq!(BlobStore::get_blob_length(b""), 0);
    assert_eq!(BlobStore::get_blob_vec(b"", ByteRange::full()).unwrap(), (Vec::new(), 0));
    assert_eq!(BlobStore::get_blob_length(b"abc"), 3);
    let (read, len) = BlobStore::get_blob_vec(b"abc", ByteRange::full()).unwrap();
    assert_eq!((&read[..], len), (&b"abc"[..], 3));
    let short = [1, 2, LZ4_MARKER];
    assert_eq!(BlobStore::get_blob_length(&short), 3);
    assert_eq!(BlobStore::get_blob_vec(&short, ByteRange::full()).unwrap().0, short);
}

#[test]
fn corrupt_blobs_are_refused() {
    let corrupt = [200, 0, 0, 0, 0xff, 0xff, 0xff, LZ4_MARKER];
    assert!(matches!(
        BlobStore::get_blob_vec(&corrupt, ByteRange::full()),
        Err(StoreError::DecompressError(_))
    ));
    let mut stream = vec![9u8; 20];
    stream.push(LZ4_STREAM_MARKER);
    assert!(matches!(
        BlobStore::get_blob_vec(&stream, ByteRange::full()),
        Err(StoreError::UnexpectedError(_))
    ));
    assert!(decompress_block(&[1], ByteRange::full()).is_err());
}

#[test]
fn compression_is_found_by_the_last_byte() {
    assert_eq!(method_query(None), MethodStep::Missing);
    assert_eq!(method_query(Some(0)), MethodStep::Known(NONE_MARKER, 1));
    assert_eq!(method_query(Some(9)), MethodStep::Read(ByteRange::new(8, u64::MAX)));
    let method = BlobStore::get_blob_compression_method_and_raw_length;
    assert_eq!(method(9, None), Some((NONE_MARKER, 10)));
    assert_eq!(method(9, Some(&[])), None);
    assert_eq!(method(9, Some(&[LZ4_MARKER])), Some((LZ4_MARKER, 9)));
}

#[test]
fn lengths_are_found_by_the_marker() {
    assert_eq!(length_query(None), LengthStep::Done(None));
    assert_eq!(length_query(Some((NONE_MARKER, 5))), LengthStep::Done(Some(4)));
    assert_eq!(length_query(Some((NONE_MARKER, 0))), LengthStep::Done(Some(0)));
    assert_eq!(length_query(Some((LZ4_MARKER, 5))), LengthStep::Done(Some(5)));
    assert_eq!(length_query(Some((LZ4_MARKER, 6))), LengthStep::ReadBlockSize);
    assert_eq!(length_query(Some((LZ4_STREAM_MARKER, 9))), LengthStep::Done(Some(9)));
    assert_eq!(length_query(Some((LZ4_STREAM_MARKER, 10))), LengthStep::ReadStreamSize);
    assert_eq!(length_query(Some((7, 10))), LengthStep::Done(Some(10)));
    assert_eq!(block_size(Some(&[1, 1, 0, 0])), Some(257));
    assert_eq!(block_size(Some(&[1, 1, 0])), None);
    assert_eq!(block_size(None), None);
    assert_eq!(stream_size(Some(&[0, 0, 0, 0, 1, 0, 0, 0])), Some(1 << 32));
    assert_eq!(stream_size(Some(&[0; 4])), None);
    assert_eq!(stream_result_length(&[9, 0, 0, 0, 0, 0, 0, 0], ByteRange::full()), Some(9));
    assert_eq!(stream_result_length(&[9], ByteRange::full()), None);
}

#[test]
fn reads_are_planned_by_the_marker() {
    let range = ByteRange::new(2, 20);
    assert_eq!(BlobStore::get_blob(None, range), GetStep::Missing);
    assert_eq!(
        BlobStore::get_blob(Some((NONE_MARKER, 11)), range),
        GetStep::Read { range: ByteRange::new(2, 10), len: 8 }
    );
    assert_eq!(BlobStore::get_blob(Some((NONE_MARKER, 3)), range), GetStep::Empty);
    assert_eq!(
        BlobStore::get_blob(Some((LZ4_MARKER, 30)), range),
        GetStep::ReadBlock(ByteRange::new(0, 29))
    );
    assert_eq!(
        BlobStore::get_blob(Some((LZ4_STREAM_MARKER, 30)), range),
        GetStep::ReadStream(ByteRange::new(0, 29))
    );
    assert_eq!(
        BlobStore::get_blob(Some((LZ4_STREAM_MARKER, 9)), range),
        GetStep::Read { range: ByteRange::new(2, 9), len: 7 }
    );
}

#[test]
fn writes_are_planned_by_the_compression() {
    let settings = SpillSettings::new();
    let data = JumboBytesMut::from_vec(words(100), &settings);
    match BlobStore::put_blob(data, CompressionAlgo::Uncompressed) {
        PutStep::AppendMarker { data, marker } => {
            assert_eq!(marker, NONE_MARKER);
            assert_eq!(data.len(), 100);
            assert_eq!(data.max_size, u64::MAX);
        }
        _ => panic!("not uncompressed"),
    }
    let data = JumboBytesMut::from_vec(words(100), &settings);
    match BlobStore::put_blob(data, CompressionAlgo::Lz4) {
        PutStep::Store(raw) => {
            let (read, len) = BlobStore::get_blob_vec(&raw, ByteRange::full()).unwrap();
            assert_eq!((read, len), (words(100), 100));
        }
        _ => panic!("not one block"),
    }
    let data = JumboBytesMut {
        max_size: 5,
        inner: Some(JumboBytesMutInner::File { cursor_pos: 0, file_size: 258 }),
        max_ram_size: 4,
    };
    match BlobStore::put_blob(data, CompressionAlgo::Lz4) {
        PutStep::Stream { data, mut writer } => {
            assert_eq!(data.max_size, u64::MAX);
            match writer.step() {
                WriterStep::Write(bytes) => assert_eq!(bytes, [2, 1, 0, 0, 0, 0, 0, 0]),
                other => panic!("{other:?}"),
            }
        }
        _ => panic!("not a frame"),
    }
}

#[test]
fn written_frames_are_read_back() {
    for data in [Vec::new(), words(100), words(300_000)] {
        let mut writer = BlobWriter::new(data.len() as u64);
        let mut source = &data[..];
        let mut raw = Vec::new();
        loop {
            match writer.step() {
                WriterStep::Write(bytes) => {
                    let n = bytes.len().min(777);
                    raw.extend_from_slice(&bytes[..n]);
                    writer.wrote(n);
                }
                WriterStep::Read(len) => {
                    assert_eq!(len, COPY_CHUNK_LEN);
                    let n = len.min(source.len());
                    writer.source_read(&source[..n]);
                    source = &source[n..];
                }
                WriterStep::Finished => break,
            }
        }
        assert_eq!(raw.last(), Some(&LZ4_STREAM_MARKER));
        assert_eq!(raw[..8], (data.len() as u64).to_le_bytes());
        assert_eq!(BlobStore::get_blob_length(&raw), data.len() as u64);
        let (read, _) = BlobStore::get_blob_vec(&raw, ByteRange::full()).unwrap();
        assert!(read == data);
    }
}

#[test]
fn stores_have_to_be_configured() {
    assert!(matches!(
        BlobStore::Store(Store::Unset).configured(),
        Err(StoreError::NotConfigured)
    ));
    assert!(BlobStore::Store(Store::RocksDb).configured().is_ok());
    assert!(BlobStore::Fs.configured().is_ok());
    assert!(BlobStore::Store(Store::SQLite).takes_whole_blobs());
    assert!(!BlobStore::Azure.takes_whole_blobs());
}

#[test]
fn damaged_frames_are_read_up_to_the_damage() {
    let data: Vec<u8> = (0..400_000u32).map(|i| (i.wrapping_mul(i) >> 7) as u8).collect();
    let mut encoder = AsyncFrameEncoder::new();
    let mut raw = stream_prefix(data.len() as u64);
    for piece in data.chunks(8192) {
        let mut done = false;
        while !done {
            match encoder.poll_write(piece) {
                EncodeStep::Written(len) => {
                    assert_eq!(len, piece.len());
                    done = true;
                }
                EncodeStep::FlushFirst => {
                    if let FlushStep::Write(bytes) = encoder.poll_flush_destination() {
                        encoder.destination_took(bytes.len());
                        raw.extend(bytes);
                    }
                }
                other => panic!("{other:?}"),
            }
        }
    }
    encoder.poll_shutdown();
    if let FlushStep::Write(bytes) = encoder.poll_flush_destination() {
        raw.extend(bytes);
    }
    raw.truncate(raw.len() - 10);
    raw.push(LZ4_STREAM_MARKER);
    let (read, len) = BlobStore::get_blob_vec(&raw, ByteRange::new(10, 50)).unwrap();
    assert_eq!((&read[..], len), (&data[10..50], 40));
    assert!(matches!(
        BlobStore::get_blob_vec(&raw, ByteRange::full()),
        Err(StoreError::UnexpectedError(_))
    ));
    assert!(matches!(
        BlobStore::get_blob_vec(&raw, ByteRange::new(399_990, 400_000)),
        Err(StoreError::UnexpectedError(_))
    ));
}
