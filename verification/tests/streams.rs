use blob_store::byte_range::ByteRange;
use blob_store::frame::AsyncFrameEncoder;
use blob_store::frame::FlushStep;
use blob_store::io_error::{IoError, IoErrorKind};
use blob_store::jumbo::{JumboBytesMut, JumboBytesMutInner, SpillSettings};
use blob_store::stream::{BlobReadStream, Fetched, FirstChunk, PagedChunks, StreamStep};
use bytes::Bytes;

fn frame_of(data: &[u8]) -> Vec<u8> {
    let mut encoder = AsyncFrameEncoder::new();
    for piece in data.chunks(8192) {
        let _ = encoder.poll_write(piece);
        if let FlushStep::Write(_) = encoder.poll_flush_destination() {
            continue;
        }
    }
    encoder.poll_shutdown();
    match encoder.poll_flush_destination() {
        FlushStep::Write(bytes) => bytes,
        FlushStep::Flush => Vec::new(),
    }
}

fn pattern(len: usize) -> Vec<u8> {
    (0..len).map(|i| (i * i / 7) as u8).collect()
}

fn read_all(mut stream: BlobReadStream, mut source: &[u8], max: usize) -> Vec<u8> {
    let mut out = Vec::new();
    loop {
        match stream.poll_read(max) {
            StreamStep::Ready(bytes) if bytes.is_empty() => return out,
            StreamStep::Ready(bytes) => out.extend(bytes),
            StreamStep::FromSource(len) => {
                let n = len.min(source.len());
                let piece = source[..n].to_vec();
                source = &source[n..];
                let end = piece.is_empty();
                if let Some(bytes) = stream.source_read(piece) {
                    out.extend(bytes);
                    if end {
                        return out;
                    }
                }
            }
            other => panic!("{other:?}"),
        }
    }
}

#[test]
fn ranges_of_buffers_are_streamed() {
    let data = pattern(100);
    for range in [
        ByteRange::full(),
        ByteRange::new(10, 20),
        ByteRange::new(90, 1000),
        ByteRange::new(20, 10),
        ByteRange::new(200, u64::MAX),
    ] {
        let mut buffer = JumboBytesMut::from_vec(data.clone(), &SpillSettings::new());
        let _ = BlobReadStream::seek_range(&mut buffer, range);
        let stream = BlobReadStream::byte_range(buffer, range);
        let start = (range.start as usize).min(data.len());
        let end = (range.end.min(data.len() as u64) as usize).max(start);
        assert_eq!(read_all(stream, &[], 7), &data[start..end]);
    }
}

#[test]
fn ranges_of_files_are_streamed() {
    let file = pattern(50);
    assert_eq!(read_all(BlobReadStream::file_range(ByteRange::full()), &file, 9), file);
    let stream = BlobReadStream::file_range(ByteRange::new(5, 25));
    assert_eq!(read_all(stream, &file[5..], 9), &file[5..25]);
    assert_eq!(read_all(BlobReadStream::S3, &file, 100), file);
    let mut empty = BlobReadStream::file_range(ByteRange::new(5, 5));
    assert!(matches!(empty.poll_read(4), StreamStep::Ready(bytes) if bytes.is_empty()));
}

#[test]
fn ranges_of_compressed_sources_are_streamed() {
    let data = pattern(12_000);
    let frame = frame_of(&data);
    for range in [
        ByteRange::full(),
        ByteRange::new(0, 5),
        ByteRange::new(5000, 5100),
        ByteRange::new(11_990, 20_000),
        ByteRange::new(11_990, u64::MAX),
        ByteRange::new(30_000, u64::MAX),
        ByteRange::new(7, 3),
    ] {
        let start = (range.start as usize).min(data.len());
        let end = (range.end.min(data.len() as u64) as usize).max(start);
        let stream = BlobReadStream::lz4_stream_range(range);
        assert!(read_all(stream, &frame, 333) == data[start..end]);
    }
}

#[test]
fn chunks_are_handed_out_in_order() {
    let mut chunks = PagedChunks { in_page: true, chunk: Bytes::from_static(b"abcdef") };
    match chunks.poll_read(4) {
        StreamStep::Ready(bytes) => assert_eq!(bytes, b"abcd"),
        other => panic!("{other:?}"),
    }
    match chunks.poll_read(9) {
        StreamStep::Ready(bytes) => assert_eq!(bytes, b"ef"),
        other => panic!("{other:?}"),
    }
    assert!(matches!(chunks.poll_read(9), StreamStep::NextChunk));
    assert!(matches!(
        chunks.chunk_fetched(Fetched::Got(Bytes::new()), 9),
        StreamStep::NextChunk
    ));
    match chunks.chunk_fetched(Fetched::Got(Bytes::from_static(b"gh")), 1) {
        StreamStep::Ready(bytes) => assert_eq!(bytes, b"g"),
        other => panic!("{other:?}"),
    }
    assert!(matches!(chunks.poll_read(1), StreamStep::Ready(bytes) if bytes == b"h"));
    assert!(matches!(chunks.chunk_fetched(Fetched::End, 9), StreamStep::NextPage));
    assert!(matches!(chunks.poll_read(9), StreamStep::NextPage));
    assert!(matches!(chunks.page_fetched(Fetched::Got(())), StreamStep::NextChunk));
    let error = IoError::new(IoErrorKind::Other, "lost");
    assert!(matches!(
        chunks.chunk_fetched(Fetched::Failed(error), 9),
        StreamStep::Failed(e) if e.message == "lost"
    ));
    assert!(matches!(chunks.chunk_fetched(Fetched::End, 9), StreamStep::NextPage));
    let error = IoError::new(IoErrorKind::Other, "lost again");
    assert!(matches!(chunks.page_fetched(Fetched::Failed(error)), StreamStep::Failed(_)));
    assert!(matches!(
        chunks.page_fetched(Fetched::End),
        StreamStep::Ready(bytes) if bytes.is_empty()
    ));
}

#[test]
fn first_chunk_decides_whether_there_is_a_blob() {
    assert!(matches!(BlobReadStream::azure_stream(FirstChunk::NotFound), Ok(None)));
    assert!(matches!(BlobReadStream::azure_stream(FirstChunk::Nothing), Ok(None)));
    let error = IoError::new(IoErrorKind::Other, "refused");
    assert!(matches!(
        BlobReadStream::azure_stream(FirstChunk::Failed(error)),
        Err(e) if e.message == "refused"
    ));
    let first = FirstChunk::Got(Bytes::from_static(b"abc"));
    let mut stream = BlobReadStream::azure_stream(first).unwrap().unwrap();
    assert!(matches!(stream.poll_read(9), StreamStep::Ready(bytes) if bytes == b"abc"));
    assert!(matches!(stream.poll_read(9), StreamStep::NextChunk));
}

#[test]
fn buffers_in_files_are_read_through_the_application() {
    let inner = JumboBytesMut {
        max_size: 100,
        inner: Some(JumboBytesMutInner::File { cursor_pos: 3, file_size: 50 }),
        max_ram_size: 4,
    };
    let mut stream = BlobReadStream::byte_range(inner, ByteRange::new(3, 13));
    assert!(matches!(stream.poll_read(100), StreamStep::FromBuffer(10)));
    assert_eq!(stream.buffer_read(vec![1; 10]), vec![1; 10]);
    assert!(matches!(stream.poll_read(100), StreamStep::Ready(bytes) if bytes.is_empty()));
    match stream {
        BlobReadStream::ByteSegment { inner, limit } => {
            assert_eq!(limit, 0);
            assert!(matches!(
                inner.inner,
                Some(JumboBytesMutInner::File { cursor_pos: 13, file_size: 50 })
            ));
        }
        _ => panic!("not a segment"),
    }
}
