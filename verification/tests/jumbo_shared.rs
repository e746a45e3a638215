use blob_store::io_error::{IoError, IoErrorKind};
use blob_store::jumbo::{
    FileStep, JumboBytesMut, PositionStep, ReadOnlyStep, ReadStep, SpillSettings,
};
use blob_store::jumbo_read_only::{CloneStep, JumboBytes, JumboBytesInner};
use blob_store::tape::SeekFrom;

fn shared(data: &[u8]) -> JumboBytes {
    match JumboBytesMut::from_vec(data.to_vec(), &SpillSettings::new()).into_read_only() {
        ReadOnlyStep::Ready(bytes) => bytes,
        other => panic!("{other:?}"),
    }
}

fn next(bytes: &mut JumboBytes, max: usize) -> Vec<u8> {
    match bytes.poll_read(max) {
        ReadStep::Ready(bytes) => bytes,
        other => panic!("{other:?}"),
    }
}

#[test]
fn shared_bytes_are_read_to_the_end() {
    let mut bytes = shared(b"abcdef");
    assert_eq!(bytes.len(), 6);
    assert!(!bytes.is_empty());
    assert_eq!(next(&mut bytes, 4), b"abcd");
    assert_eq!(next(&mut bytes, 4), b"ef");
    assert_eq!(next(&mut bytes, 4), b"");
    assert!(matches!(bytes.poll_complete(), PositionStep::Ready(6)));
    assert!(matches!(bytes.start_seek(SeekFrom::Start(100)), FileStep::Ready));
    assert!(matches!(bytes.poll_complete(), PositionStep::Ready(100)));
    assert_eq!(next(&mut bytes, 4), b"");
    assert!(matches!(bytes.poll_complete(), PositionStep::Ready(6)));
}

#[test]
fn shared_bytes_are_sought() {
    let mut bytes = shared(b"abcdef");
    assert!(matches!(bytes.start_seek(SeekFrom::End(-2)), FileStep::Ready));
    assert_eq!(next(&mut bytes, 1), b"e");
    assert!(matches!(bytes.start_seek(SeekFrom::Current(-3)), FileStep::Ready));
    assert_eq!(next(&mut bytes, 1), b"c");
    match bytes.start_seek(SeekFrom::Current(-4)) {
        FileStep::Failed(error) => {
            assert_eq!(error.kind, IoErrorKind::InvalidInput);
            assert_eq!(error.message, "invalid seek to a negative or overflowing position");
        }
        other => panic!("{other:?}"),
    }
    assert_eq!(next(&mut bytes, 1), b"d");
}

#[test]
fn clones_go_on_from_the_same_place() {
    let mut bytes = shared(b"abcdef");
    assert_eq!(next(&mut bytes, 2), b"ab");
    let mut other = match bytes.try_clone() {
        CloneStep::Ready(other) => other,
        step => panic!("{step:?}"),
    };
    assert_eq!(next(&mut bytes, 2), b"cd");
    assert_eq!(next(&mut other, 3), b"cde");
    let mut file = JumboBytes::opened(10, 3);
    file.file_read(4);
    assert!(matches!(file.try_clone(), CloneStep::Open { file_size: 10, cursor_pos: 7 }));
    file.file_sought(1);
    assert!(matches!(file.try_clone(), CloneStep::Open { file_size: 10, cursor_pos: 1 }));
}

#[test]
fn taken_bytes_leave_nothing() {
    let mut bytes = shared(b"abc");
    assert_eq!(bytes.take_bytes().as_deref(), Some(&b"abc"[..]));
    assert!(bytes.is_empty());
    assert_eq!(next(&mut bytes, 4), b"");
    assert!(JumboBytes::opened(3, 0).take_bytes().is_none());
}

#[test]
fn files_are_passed_on() {
    let mut file = JumboBytes::opened(3, 0);
    assert_eq!(file.len(), 3);
    assert_eq!(file.as_slice(), None);
    assert!(matches!(file.poll_read(1), ReadStep::ReadFromFile));
    assert!(matches!(file.start_seek(SeekFrom::Start(1)), FileStep::OnFile));
    assert!(matches!(file.poll_complete(), PositionStep::OnFile));
}

#[test]
fn last_reader_cleans_up() {
    let file = JumboBytes::opened(3, 0);
    assert!(file.needs_cleanup(1));
    assert!(!file.needs_cleanup(2));
    assert!(!shared(b"abc").needs_cleanup(1));
}

#[test]
fn errors_are_told_again() {
    let mut failed = JumboBytes::failed(IoError::new(IoErrorKind::NotFound, "gone"));
    assert_eq!(failed.len(), 0);
    for _ in 0..2 {
        match failed.poll_read(1) {
            ReadStep::Failed(error) => assert_eq!(error.message, "gone"),
            other => panic!("{other:?}"),
        }
    }
    assert!(matches!(failed.start_seek(SeekFrom::Start(0)), FileStep::Failed(_)));
    assert!(matches!(failed.poll_complete(), PositionStep::Failed(_)));
    match failed.try_clone() {
        CloneStep::Ready(JumboBytes { inner: Some(JumboBytesInner::Error(error)) }) => {
            assert_eq!(error.kind, IoErrorKind::NotFound)
        }
        other => panic!("{other:?}"),
    }
    let mut dropped = JumboBytes { inner: None };
    match dropped.poll_read(1) {
        ReadStep::Failed(error) => assert_eq!(error.kind, IoErrorKind::BrokenPipe),
        other => panic!("{other:?}"),
    }
}
