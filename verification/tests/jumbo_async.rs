use blob_store::io_error::{IoError, IoErrorKind};
use blob_store::jumbo::{
    FileStep, IntoVecStep, JumboBytesMut, JumboBytesMutInner, MoveStep, PositionStep, ReadOnlyStep,
    ReadStep, SpillSettings, TransitionPoll, TransitionStep, WriteStep, DEFAULT_SPILLOVER_SIZE,
    MIN_SPILLOVER_SIZE,
};
use blob_store::tape::{read_at, write_at, SeekFrom};

fn small(max_size: u64, max_ram_size: usize) -> JumboBytesMut {
    let mut buffer = JumboBytesMut::new(max_size, &SpillSettings::new());
    buffer.max_ram_size = max_ram_size;
    buffer
}

fn in_file(cursor_pos: u64, file_size: u64, max_size: u64) -> JumboBytesMut {
    JumboBytesMut {
        max_size,
        inner: Some(JumboBytesMutInner::File { cursor_pos, file_size }),
        max_ram_size: 4,
    }
}

fn gone() -> JumboBytesMut {
    JumboBytesMut { max_size: 10, inner: None, max_ram_size: 4 }
}

fn written(step: WriteStep) -> usize {
    match step {
        WriteStep::Written(n) => n,
        other => panic!("not written: {other:?}"),
    }
}

fn read(step: ReadStep) -> Vec<u8> {
    match step {
        ReadStep::Ready(bytes) => bytes,
        other => panic!("not read: {other:?}"),
    }
}

fn check(error: &IoError, kind: IoErrorKind, message: &str) {
    assert_eq!(error.kind, kind);
    assert_eq!(error.message, message);
}

const REUSED: &str = "this item was apparently already dropped";
const BAD_SEEK: &str = "invalid seek to a negative or overflowing position";

#[test]
fn spillover_size_has_a_minimum() {
    let mut settings = SpillSettings::new();
    assert_eq!(settings.spillover_size, DEFAULT_SPILLOVER_SIZE);
    assert_eq!(DEFAULT_SPILLOVER_SIZE, 25 * 1024 * 1024);
    JumboBytesMut::set_spillover_size(&mut settings, 5);
    assert_eq!(settings.spillover_size, MIN_SPILLOVER_SIZE);
    JumboBytesMut::set_spillover_size(&mut settings, 50_000_000);
    assert_eq!(settings.spillover_size, 50_000_000);
    assert_eq!(JumboBytesMut::new(1, &settings).max_ram_size, 50_000_000);
}

#[test]
fn memory_is_written_and_read() {
    let mut buffer = small(100, 50);
    assert!(buffer.is_empty());
    assert_eq!(written(buffer.poll_write(b"hello ")), 6);
    assert_eq!(written(buffer.poll_write(b"world")), 5);
    assert_eq!(buffer.len(), 11);
    assert_eq!(buffer.as_slice(), Some(&b"hello world"[..]));
    assert_eq!(read(buffer.poll_read(10)), b"");
    assert!(matches!(buffer.start_seek(SeekFrom::Start(6)), FileStep::Ready));
    assert!(matches!(buffer.poll_complete(), PositionStep::Ready(6)));
    assert_eq!(read(buffer.poll_read(3)), b"wor");
    assert_eq!(read(buffer.poll_read(30)), b"ld");
    assert!(matches!(buffer.poll_flush(), FileStep::Ready));
    assert!(matches!(buffer.poll_shutdown(), FileStep::Ready));
    assert!(!buffer.needs_cleanup());
}

#[test]
fn memory_seeks_are_checked() {
    let mut buffer = JumboBytesMut::from_string(String::from("abc"), &SpillSettings::new());
    assert_eq!(buffer.max_size, u64::MAX);
    match buffer.start_seek(SeekFrom::End(-4)) {
        FileStep::Failed(error) => check(&error, IoErrorKind::InvalidInput, BAD_SEEK),
        other => panic!("{other:?}"),
    }
    assert!(matches!(buffer.start_seek(SeekFrom::End(-1)), FileStep::Ready));
    assert_eq!(read(buffer.poll_read(9)), b"c");
    assert!(matches!(buffer.start_seek(SeekFrom::Current(-3)), FileStep::Ready));
    assert_eq!(read(buffer.poll_read(9)), b"abc");
    assert!(matches!(buffer.start_seek(SeekFrom::Start(5)), FileStep::Ready));
    assert_eq!(written(buffer.poll_write(b"z")), 1);
    assert_eq!(buffer.as_slice(), Some(&b"abc\0\0z"[..]));
}

#[test]
fn writes_beyond_the_limit_are_refused() {
    let mut buffer = small(5, 50);
    assert_eq!(written(buffer.poll_write(b"12345")), 5);
    match buffer.poll_write(b"6") {
        WriteStep::Failed(error) => {
            check(&error, IoErrorKind::FileTooLarge, "buffer exceeded maximum size of 5 bytes")
        }
        other => panic!("{other:?}"),
    }
    assert_eq!(buffer.as_slice(), Some(&b"12345"[..]));
    let mut sought = small(5, 50);
    assert!(matches!(sought.start_seek(SeekFrom::Start(5)), FileStep::Ready));
    assert!(matches!(sought.poll_write(b"6"), WriteStep::Failed(_)));
    sought.max_size = 6;
    assert_eq!(written(sought.poll_write(b"6")), 1);
    assert_eq!(sought.len(), 6);
}

#[test]
fn large_contents_move_into_a_file() {
    let mut buffer = small(100, 4);
    let mut disk: Vec<u8> = Vec::new();
    assert_eq!(written(buffer.poll_write(b"abcd")), 4);
    assert!(matches!(buffer.start_seek(SeekFrom::Start(2)), FileStep::Ready));
    let (bytes, cursor) = match buffer.poll_write(b"XYZ") {
        WriteStep::Spill { bytes, cursor } => (bytes, cursor),
        other => panic!("{other:?}"),
    };
    disk.extend(&bytes);
    assert_eq!((&bytes[..], cursor), (&b"abcd"[..], 2));
    assert_eq!(buffer.len(), 4);
    assert_eq!(buffer.as_slice(), None);
    assert!(matches!(buffer.poll_write(b"XYZ"), WriteStep::AwaitTransition));
    assert!(matches!(
        buffer.handle_poll_transition(TransitionPoll::Pending),
        Ok(TransitionStep::Pending)
    ));
    assert!(matches!(
        buffer.handle_poll_transition(TransitionPoll::Done),
        Ok(TransitionStep::Proceed)
    ));
    assert!(matches!(buffer.poll_write(b"XYZ"), WriteStep::WriteToFile));
    write_at(&mut disk, cursor as usize, b"XYZ");
    buffer.file_written(3);
    assert_eq!(disk, b"abXYZ");
    assert_eq!(buffer.len(), 5);
    assert!(buffer.needs_cleanup());
    assert!(matches!(buffer.start_seek(SeekFrom::Start(1)), FileStep::OnFile));
    buffer.file_sought(1);
    assert!(matches!(buffer.poll_complete(), PositionStep::OnFile));
    assert!(matches!(buffer.poll_read(2), ReadStep::ReadFromFile));
    assert_eq!(read_at(&disk, 1, 2), b"bX");
    buffer.file_read(2);
    assert!(matches!(
        buffer.inner,
        Some(JumboBytesMutInner::File { cursor_pos: 3, file_size: 5 })
    ));
    assert!(matches!(buffer.poll_flush(), FileStep::OnFile));
    assert!(matches!(buffer.poll_shutdown(), FileStep::OnFile));
}

#[test]
fn seeks_during_the_move_are_made_up_for() {
    let mut buffer = small(100, 2);
    assert_eq!(written(buffer.poll_write(b"ab")), 2);
    assert!(matches!(buffer.poll_write(b"c"), WriteStep::Spill { .. }));
    assert!(matches!(buffer.start_seek(SeekFrom::Current(-1)), FileStep::Ready));
    assert!(matches!(buffer.start_seek(SeekFrom::Current(-1)), FileStep::Ready));
    match buffer.start_seek(SeekFrom::Current(-1)) {
        FileStep::Failed(error) => check(&error, IoErrorKind::InvalidInput, BAD_SEEK),
        other => panic!("{other:?}"),
    }
    assert!(matches!(buffer.start_seek(SeekFrom::End(1)), FileStep::Ready));
    assert!(matches!(buffer.poll_read(1), ReadStep::AwaitTransition));
    assert!(matches!(buffer.poll_complete(), PositionStep::AwaitTransition));
    assert!(matches!(buffer.poll_flush(), FileStep::AwaitTransition));
    assert!(matches!(
        buffer.handle_poll_transition(TransitionPoll::Done),
        Ok(TransitionStep::Seek(3))
    ));
    assert!(matches!(
        buffer.handle_poll_transition(TransitionPoll::Done),
        Ok(TransitionStep::Proceed)
    ));
    assert!(matches!(
        buffer.inner,
        Some(JumboBytesMutInner::File { cursor_pos: 3, file_size: 2 })
    ));
}

#[test]
fn failed_move_leaves_nothing() {
    let mut buffer = small(100, 2);
    assert!(matches!(buffer.poll_write(b"abc"), WriteStep::Spill { .. }));
    let error = IoError::new(IoErrorKind::Other, "disk full");
    match buffer.handle_poll_transition(TransitionPoll::Failed(error)) {
        Err(error) => check(&error, IoErrorKind::Other, "disk full"),
        Ok(step) => panic!("{step:?}"),
    }
    assert!(buffer.inner.is_none());
    assert_eq!(buffer.len(), 0);
}

#[test]
fn dropped_contents_are_refused() {
    let mut buffer = gone();
    match buffer.poll_write(b"a") {
        WriteStep::Failed(error) => check(&error, IoErrorKind::BrokenPipe, REUSED),
        other => panic!("{other:?}"),
    }
    assert!(matches!(buffer.poll_read(1), ReadStep::Failed(_)));
    assert!(matches!(buffer.start_seek(SeekFrom::Start(0)), FileStep::Failed(_)));
    assert!(matches!(buffer.poll_complete(), PositionStep::Failed(_)));
    assert!(matches!(buffer.poll_flush(), FileStep::Failed(_)));
    assert!(matches!(buffer.poll_shutdown(), FileStep::Failed(_)));
    assert!(matches!(
        buffer.handle_poll_transition(TransitionPoll::Done),
        Ok(TransitionStep::Proceed)
    ));
    assert!(matches!(gone().into_vec(9), IntoVecStep::Failed(_)));
    assert!(matches!(gone().move_into_file(), MoveStep::Failed(_)));
    assert!(matches!(gone().into_read_only(), ReadOnlyStep::Ready(_)));
}

#[test]
fn file_writes_are_limited_too() {
    let mut buffer = in_file(2, 4, 5);
    assert!(matches!(buffer.poll_write(b"a"), WriteStep::WriteToFile));
    assert!(matches!(buffer.poll_write(b"abc"), WriteStep::WriteToFile));
    assert!(matches!(buffer.poll_write(b"abcd"), WriteStep::Failed(_)));
    let mut past_end = in_file(9, 1, 9);
    assert!(matches!(past_end.poll_write(b""), WriteStep::WriteToFile));
    past_end.file_written(0);
    assert_eq!(past_end.len(), 1);
    assert!(matches!(past_end.poll_write(b"a"), WriteStep::Failed(_)));
}

#[test]
fn contents_are_taken_out_of_memory_only() {
    let mut buffer = JumboBytesMut::from_vec(b"abc".to_vec(), &SpillSettings::new());
    assert!(matches!(buffer.start_seek(SeekFrom::Start(2)), FileStep::Ready));
    assert_eq!(buffer.take_vec(), Some(b"abc".to_vec()));
    assert!(buffer.is_empty());
    assert!(matches!(buffer.poll_complete(), PositionStep::Ready(0)));
    assert_eq!(in_file(0, 3, 9).take_vec(), None);
    assert_eq!(in_file(0, 3, 9).len(), 3);
}

#[test]
fn contents_become_a_vector_if_small_enough() {
    let settings = SpillSettings::new();
    match JumboBytesMut::from_vec(b"abc".to_vec(), &settings).into_vec(3) {
        IntoVecStep::Ready(bytes) => assert_eq!(bytes, b"abc"),
        other => panic!("{other:?}"),
    }
    match JumboBytesMut::from_vec(b"abc".to_vec(), &settings).into_vec(2) {
        IntoVecStep::Failed(error) => {
            check(&error, IoErrorKind::FileTooLarge, "file exceeds maximum buffer size")
        }
        other => panic!("{other:?}"),
    }
    assert!(matches!(in_file(0, 3, 9).into_vec(3), IntoVecStep::ReadFile));
    assert!(matches!(in_file(0, 3, 9).into_vec(2), IntoVecStep::Failed(_)));
}

#[test]
fn contents_become_a_named_file() {
    match JumboBytesMut::from_vec(b"abc".to_vec(), &SpillSettings::new()).move_into_file() {
        MoveStep::WriteOut(bytes) => assert_eq!(bytes, b"abc"),
        other => panic!("{other:?}"),
    }
    assert!(matches!(in_file(0, 3, 9).move_into_file(), MoveStep::Rename));
    assert!(matches!(JumboBytesMut::renamed(Ok(())), MoveStep::Moved));
    let crossing = IoError::new(IoErrorKind::CrossesDevices, "other device");
    assert!(matches!(JumboBytesMut::renamed(Err(crossing)), MoveStep::CopyAndRemove));
    let missing = IoError::new(IoErrorKind::NotFound, "no such file");
    match JumboBytesMut::renamed(Err(missing)) {
        MoveStep::Failed(error) => check(&error, IoErrorKind::NotFound, "no such file"),
        other => panic!("{other:?}"),
    }
}

#[test]
fn read_only_contents_begin_at_the_start() {
    let mut buffer = JumboBytesMut::from_vec(b"abc".to_vec(), &SpillSettings::new());
    assert!(matches!(buffer.start_seek(SeekFrom::Start(2)), FileStep::Ready));
    match buffer.into_read_only() {
        ReadOnlyStep::Ready(mut bytes) => {
            assert_eq!(bytes.as_slice(), Some(&b"abc"[..]));
            assert_eq!(read(bytes.poll_read(2)), b"ab");
        }
        other => panic!("{other:?}"),
    }
    assert!(matches!(in_file(1, 3, 9).into_read_only(), ReadOnlyStep::Reopen { file_size: 3 }));
}

#[test]
fn full_buffers_are_written_over() {
    let mut buffer = JumboBytesMut::new(3, &SpillSettings::new());
    assert!(matches!(buffer.poll_write(b"abc"), WriteStep::Written(3)));
    assert!(matches!(buffer.poll_write(b"d"), WriteStep::Failed(_)));
    assert!(matches!(buffer.start_seek(SeekFrom::Start(0)), FileStep::Ready));
    assert!(matches!(buffer.poll_write(b"X"), WriteStep::Written(1)));
    assert_eq!(buffer.as_slice(), Some(&b"Xbc"[..]));
    buffer.max_size = 2;
    assert!(matches!(buffer.poll_write(b"Y"), WriteStep::Failed(_)));
}
