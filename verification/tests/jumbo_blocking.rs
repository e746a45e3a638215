use blob_store::io_error::IoErrorKind;
use blob_store::jumbo::{
    FileStep, IntoVecStep, JumboBytesMut, ReadStep, SpillSettings, WriteStep,
};
use blob_store::jumbo_sync::{JumboBytesMutSync, JumboBytesMutSyncInner, SeekStep};
use blob_store::tape::SeekFrom;

fn tiny(max_size: u64, max_ram_size: usize) -> JumboBytesMutSync {
    let mut buffer = JumboBytesMutSync::new(max_size, &SpillSettings::new());
    buffer.max_ram_size = max_ram_size;
    buffer
}

#[test]
fn blocking_memory_is_written_and_read() {
    let mut buffer = tiny(20, 10);
    assert!(matches!(buffer.write(b"abc"), WriteStep::Written(3)));
    assert!(matches!(buffer.seek(SeekFrom::Start(1)), SeekStep::Ready(1)));
    match buffer.read(5) {
        ReadStep::Ready(bytes) => assert_eq!(bytes, b"bc"),
        other => panic!("{other:?}"),
    }
    assert!(matches!(buffer.seek(SeekFrom::End(-9)), SeekStep::Failed(_)));
    assert!(matches!(buffer.flush(), FileStep::Ready));
    assert_eq!(buffer.as_slice(), Some(&b"abc"[..]));
    assert_eq!(buffer.take_vec(), Some(b"abc".to_vec()));
    assert!(buffer.is_empty());
}

#[test]
fn blocking_writes_are_limited() {
    let mut buffer = tiny(4, 10);
    assert!(matches!(buffer.write(b"abc"), WriteStep::Written(3)));
    match buffer.write(b"de") {
        WriteStep::Failed(error) => {
            assert_eq!(error.kind, IoErrorKind::FileTooLarge);
            assert_eq!(error.message, "buffer exceeded maximum size of 4 bytes");
        }
        other => panic!("{other:?}"),
    }
    assert_eq!(buffer.len(), 3);
}

#[test]
fn blocking_contents_move_into_a_file() {
    let mut buffer = tiny(100, 4);
    assert!(matches!(buffer.write(b"abcd"), WriteStep::Written(4)));
    assert!(matches!(buffer.seek(SeekFrom::Start(3)), SeekStep::Ready(3)));
    match buffer.write(b"XYZ") {
        WriteStep::Spill { bytes, cursor } => {
            assert_eq!(bytes, b"abcd");
            assert_eq!(cursor, 3);
            buffer.spilled(bytes.len() as u64, cursor, 3);
        }
        other => panic!("{other:?}"),
    }
    assert_eq!(buffer.len(), 6);
    assert!(buffer.needs_cleanup());
    assert!(matches!(buffer.write(b"!"), WriteStep::WriteToFile));
    buffer.file_written(1);
    assert_eq!(buffer.len(), 7);
    assert!(matches!(buffer.seek(SeekFrom::Start(2)), SeekStep::OnFile));
    buffer.file_sought(2);
    assert!(matches!(buffer.read(1), ReadStep::ReadFromFile));
    buffer.file_read(1);
    assert!(matches!(buffer.flush(), FileStep::OnFile));
    assert!(matches!(
        buffer.inner,
        Some(JumboBytesMutSyncInner::File { cursor_pos: 3, file_size: 7 })
    ));
    assert!(matches!(buffer.into_vec(7), IntoVecStep::ReadFile));
}

#[test]
fn blocking_contents_become_a_vector() {
    let settings = SpillSettings::new();
    match JumboBytesMutSync::from_string(String::from("abc"), &settings).into_vec(3) {
        IntoVecStep::Ready(bytes) => assert_eq!(bytes, b"abc"),
        other => panic!("{other:?}"),
    }
    let buffer = JumboBytesMutSync::from_vec(b"abc".to_vec(), &settings);
    assert!(matches!(buffer.into_vec(2), IntoVecStep::Failed(_)));
}

#[test]
fn buffers_change_between_blocking_and_not() {
    let mut buffer = JumboBytesMut::from_vec(b"abc".to_vec(), &SpillSettings::new());
    assert!(matches!(buffer.start_seek(SeekFrom::Start(1)), FileStep::Ready));
    let mut blocking = JumboBytesMutSync::from_async(buffer);
    match blocking.read(1) {
        ReadStep::Ready(bytes) => assert_eq!(bytes, b"b"),
        other => panic!("{other:?}"),
    }
    let mut back = blocking.into_async();
    match back.poll_read(5) {
        ReadStep::Ready(bytes) => assert_eq!(bytes, b"c"),
        other => panic!("{other:?}"),
    }
}

#[test]
fn blocking_dropped_contents_are_refused() {
    let mut buffer = JumboBytesMutSync { max_size: 9, inner: None, max_ram_size: 4 };
    assert!(matches!(buffer.read(1), ReadStep::Failed(_)));
    assert!(matches!(buffer.seek(SeekFrom::Start(0)), SeekStep::Failed(_)));
    assert!(matches!(buffer.write(b"a"), WriteStep::Failed(_)));
    assert!(matches!(buffer.flush(), FileStep::Failed(_)));
    assert_eq!(buffer.len(), 0);
}

#[test]
fn full_blocking_buffers_are_written_over() {
    let mut buffer = tiny(3, 10);
    assert!(matches!(buffer.write(b"abc"), WriteStep::Written(3)));
    assert!(matches!(buffer.write(b"d"), WriteStep::Failed(_)));
    assert!(matches!(buffer.seek(SeekFrom::Start(0)), SeekStep::Ready(0)));
    assert!(matches!(buffer.write(b"X"), WriteStep::Written(1)));
    assert_eq!(buffer.as_slice(), Some(&b"Xbc"[..]));
}
