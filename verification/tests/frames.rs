use blob_store::frame::{AsyncFrameDecoder, AsyncFrameEncoder, DecodeStep, EncodeStep, FlushStep};
use blob_store::helper_pipe::{AsyncHelperPipe, HELPER_PIPE_BUFFER_SIZE};
use blob_store::io_error::IoErrorKind;
use std::io::Read;

fn noise(len: usize) -> Vec<u8> {
    let mut state = 0x2545_f491_4f6c_dd1du64;
    (0..len)
        .map(|_| {
            state ^= state << 13;
            state ^= state >> 7;
            state ^= state << 17;
            state as u8
        })
        .collect()
}

fn drain(encoder: &mut AsyncFrameEncoder, sink: &mut Vec<u8>, step_len: usize) {
    loop {
        match encoder.poll_flush_destination() {
            FlushStep::Flush => return,
            FlushStep::Write(bytes) => {
                let n = bytes.len().min(step_len);
                sink.extend_from_slice(&bytes[..n]);
                encoder.destination_took(n);
            }
        }
    }
}

fn encode(data: &[u8], chunk: usize) -> Vec<u8> {
    let mut encoder = AsyncFrameEncoder::new();
    let mut sink = Vec::new();
    for piece in data.chunks(chunk) {
        loop {
            match encoder.poll_write(piece) {
                EncodeStep::Written(n) => {
                    assert_eq!(n, piece.len());
                    break;
                }
                EncodeStep::FlushFirst => drain(&mut encoder, &mut sink, 1000),
                EncodeStep::Failed(error) => panic!("{error:?}"),
            }
        }
    }
    encoder.poll_shutdown();
    drain(&mut encoder, &mut sink, 700);
    sink
}

fn decode(frame: &[u8], feed: usize, max: usize) -> Vec<u8> {
    let mut decoder = AsyncFrameDecoder::new();
    let mut source = frame;
    let mut data = Vec::new();
    loop {
        match decoder.read_inner(max) {
            DecodeStep::Ready(bytes) if bytes.is_empty() => return data,
            DecodeStep::Ready(bytes) => {
                assert!(bytes.len() <= max);
                data.extend(bytes);
            }
            DecodeStep::NeedInput(len) => {
                assert_eq!(len, max.max(HELPER_PIPE_BUFFER_SIZE));
                let n = feed.min(source.len());
                decoder.source_read(&source[..n]);
                source = &source[n..];
            }
            DecodeStep::Failed(error) => panic!("{error:?}"),
        }
    }
}

#[test]
fn frames_decode_to_what_was_written() {
    for data in [Vec::new(), b"hello".to_vec(), noise(300_000), vec![7u8; 500_000]] {
        let frame = encode(&data, 8192);
        for feed in [1024, 16384, 1_000_000] {
            assert!(decode(&frame, feed, 5000) == data);
        }
    }
    let data = noise(2000);
    let frame = encode(&data, 100);
    assert!(decode(&frame, 1, 64) == data);
}

#[test]
fn compressed_frames_are_shorter() {
    assert!(encode(&vec![7u8; 500_000], 8192).len() < 10_000);
}

#[test]
fn encoder_asks_to_be_flushed() {
    let mut encoder = AsyncFrameEncoder::new();
    let data = noise(200_000);
    assert!(matches!(encoder.poll_write(&data[..1000]), EncodeStep::Written(1000)));
    assert!(matches!(encoder.poll_write(&data[1000..]), EncodeStep::Written(199_000)));
    assert!(matches!(encoder.poll_write(b"more"), EncodeStep::FlushFirst));
    let mut sink = Vec::new();
    drain(&mut encoder, &mut sink, 4096);
    assert!(matches!(encoder.poll_write(b"more"), EncodeStep::Written(4)));
    encoder.poll_shutdown();
    encoder.poll_shutdown();
    drain(&mut encoder, &mut sink, 4096);
    let mut whole = data;
    whole.extend(b"more");
    assert!(decode(&sink, 16384, 1000) == whole);
}

#[test]
fn encoder_refuses_writes_behind_the_end() {
    let mut encoder = AsyncFrameEncoder::new();
    encoder.poll_shutdown();
    match encoder.poll_write(b"late") {
        EncodeStep::Failed(error) => {
            assert_eq!(error.kind, IoErrorKind::BrokenPipe);
            assert_eq!(error.message, "shutdown() was already called");
        }
        other => panic!("{other:?}"),
    }
}

#[test]
fn decoder_refuses_what_is_no_frame() {
    let mut decoder = AsyncFrameDecoder::new();
    assert!(matches!(decoder.read_inner(10), DecodeStep::NeedInput(_)));
    decoder.source_read(b"this is certainly not a frame");
    assert!(matches!(decoder.read_inner(10), DecodeStep::Failed(_)));
    assert!(matches!(decoder.read_inner(0), DecodeStep::Failed(_)));
    assert!(matches!(decoder.read_inner(10), DecodeStep::Failed(_)));
}

#[test]
fn pipe_keeps_the_order() {
    let mut pipe = AsyncHelperPipe::new();
    assert!(pipe.flush().is_ok());
    match pipe.take_bytes(4) {
        Err(error) => {
            assert_eq!(error.kind, IoErrorKind::WouldBlock);
            assert_eq!(error.message, "AsyncHelperPipe must not block");
        }
        Ok(bytes) => panic!("{bytes:?}"),
    }
    assert_eq!(pipe.write(b"abc"), 3);
    assert_eq!(pipe.write(b"def"), 3);
    assert!(pipe.flush().is_err());
    assert_eq!(pipe.take_bytes(4).unwrap(), b"abcd");
    pipe.roll_back();
    assert_eq!(pipe.take_bytes(4).unwrap(), b"abcd");
    pipe.commit();
    pipe.roll_back();
    let mut buf = [b'-'; 4];
    assert_eq!(pipe.read_into(&mut buf).unwrap(), 2);
    assert_eq!(&buf, b"ef--");
    pipe.close();
    assert_eq!(pipe.take_bytes(4).unwrap(), b"");
    assert!(pipe.flush().is_ok());
}

#[test]
fn pipe_is_a_reader() {
    let mut pipe = AsyncHelperPipe::new();
    let mut buf = [0u8; 8];
    assert_eq!(pipe.read(&mut buf).unwrap_err().kind(), std::io::ErrorKind::WouldBlock);
    pipe.write(b"xyz");
    assert_eq!(pipe.read(&mut buf).unwrap(), 3);
    assert_eq!(&buf[..3], b"xyz");
    pipe.close();
    assert_eq!(pipe.read(&mut buf).unwrap(), 0);
}

#[test]
fn damaged_frames_are_not_read_to_an_end() {
    let data = noise(20000);
    let mut frame = encode(&data, 1000);
    // The length of the first block, which becomes larger than a block may be.
    frame[9] = 0x7f;
    let mut decoder = AsyncFrameDecoder::new();
    decoder.source_read(&frame);
    decoder.source_read(&[]);
    assert!(matches!(decoder.read_inner(100), DecodeStep::Failed(_)));
}

#[test]
fn blocks_come_out_as_soon_as_they_are_there() {
    let data = noise(300_000);
    let frame = encode(&data, 10_000);
    let mut decoder = AsyncFrameDecoder::new();
    decoder.source_read(&frame[..frame.len() / 2]);
    let mut out = Vec::new();
    loop {
        match decoder.read_inner(1000) {
            DecodeStep::Ready(bytes) => out.extend(bytes),
            DecodeStep::NeedInput(len) => {
                assert_eq!(len, HELPER_PIPE_BUFFER_SIZE);
                break;
            }
            other => panic!("{other:?}"),
        }
    }
    assert!(out.len() > 60_000 && out.len() < data.len());
    assert!(data.starts_with(&out));
}

/// All data up to the next end, where no more of the source is needed.
fn read_on(decoder: &mut AsyncFrameDecoder, max: usize) -> Vec<u8> {
    let mut data = Vec::new();
    loop {
        match decoder.read_inner(max) {
            DecodeStep::Ready(bytes) if bytes.is_empty() => return data,
            DecodeStep::Ready(bytes) => data.extend(bytes),
            other => panic!("{other:?}"),
        }
    }
}

#[test]
fn frames_are_read_one_after_the_other() {
    let second = noise(300_000);
    let mut source = encode(b"first", 10);
    source.extend(encode(&second, 10_000));
    source.extend(encode(b"third", 10));
    let mut decoder = AsyncFrameDecoder::new();
    decoder.source_read(&source);
    assert_eq!(read_on(&mut decoder, 100), b"first");
    assert!(read_on(&mut decoder, 1000) == second);
    assert_eq!(read_on(&mut decoder, 100), b"third");
    assert!(matches!(decoder.read_inner(100), DecodeStep::NeedInput(_)));
    decoder.source_read(&[]);
    for _ in 0..3 {
        assert!(read_on(&mut decoder, 100).is_empty());
    }
}

#[test]
fn frames_can_be_fed_while_they_follow_each_other() {
    let mut source = encode(b"first", 10);
    let second = encode(b"second", 10);
    source.extend(&second[..3]);
    let mut decoder = AsyncFrameDecoder::new();
    decoder.source_read(&source);
    assert_eq!(read_on(&mut decoder, 100), b"first");
    assert!(matches!(decoder.read_inner(100), DecodeStep::NeedInput(_)));
    decoder.source_read(&second[3..]);
    assert_eq!(read_on(&mut decoder, 100), b"second");
}

#[test]
fn a_read_goes_on_behind_a_damaged_block() {
    let frame = encode(b"hello", 10);
    // A block that is larger than any, between the header and the first block.
    let mut source = frame[..7].to_vec();
    source.extend([0xff, 0xff, 0xff, 0x7f]);
    source.extend(&frame[7..]);
    let mut decoder = AsyncFrameDecoder::new();
    decoder.source_read(&source);
    decoder.source_read(&[]);
    assert!(matches!(decoder.read_inner(100), DecodeStep::Failed(_)));
    assert_eq!(read_on(&mut decoder, 100), b"hello");
}

#[test]
fn a_read_goes_on_behind_what_is_no_frame() {
    let mut source = b"no head".to_vec();
    source.extend(encode(b"hello", 10));
    let mut decoder = AsyncFrameDecoder::new();
    decoder.source_read(&source);
    assert!(matches!(decoder.read_inner(100), DecodeStep::Failed(_)));
    assert_eq!(read_on(&mut decoder, 100), b"hello");
}

#[test]
fn a_read_of_nothing_works_on_the_source() {
    let frame = encode(b"hello", 10);
    let mut decoder = AsyncFrameDecoder::new();
    match decoder.read_inner(0) {
        DecodeStep::NeedInput(len) => assert_eq!(len, HELPER_PIPE_BUFFER_SIZE),
        other => panic!("{other:?}"),
    }
    decoder.source_read(&frame);
    for _ in 0..3 {
        assert!(matches!(decoder.read_inner(0), DecodeStep::Ready(bytes) if bytes.is_empty()));
    }
    assert_eq!(read_on(&mut decoder, 3), b"hello");
}

#[test]
fn large_reads_are_possible() {
    let data = vec![7u8; 100_000];
    let mut decoder = AsyncFrameDecoder::new();
    decoder.source_read(&encode(&data, 8192));
    assert!(read_on(&mut decoder, usize::MAX) == data);
}
