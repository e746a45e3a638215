use blob_store::byte_range::{copy_clip, ByteRange};
use blob_store::tape::{read_at, write_at, SeekFrom};

#[test]
fn write_extends_and_overwrites() {
    let mut data = b"hello".to_vec();
    write_at(&mut data, 3, b"p me");
    assert_eq!(data, b"help me");
    write_at(&mut data, 0, b"H");
    assert_eq!(data, b"Help me");
}

#[test]
fn write_behind_the_end_fills_with_zeroes() {
    let mut data = b"ab".to_vec();
    write_at(&mut data, 4, b"c");
    assert_eq!(data, [b'a', b'b', 0, 0, b'c']);
    write_at(&mut data, 6, b"");
    assert_eq!(data.len(), 6);
}

#[test]
fn two_writes_are_one_of_the_joined_bytes() {
    let mut twice = b"0123456789".to_vec();
    write_at(&mut twice, 2, b"ab");
    write_at(&mut twice, 4, b"cd");
    let mut once = b"0123456789".to_vec();
    write_at(&mut once, 2, b"abcd");
    assert_eq!(twice, once);
}

#[test]
fn what_is_written_is_read_back() {
    let mut data = b"0123456789".to_vec();
    write_at(&mut data, 8, b"abcd");
    assert_eq!(read_at(&data, 8, 4), b"abcd");
    assert_eq!(read_at(&data, 0, 8), b"01234567");
}

#[test]
fn read_is_limited_by_what_there_is() {
    assert_eq!(read_at(b"abc", 1, 10), b"bc");
    assert_eq!(read_at(b"abc", 1, 1), b"b");
    assert_eq!(read_at(b"abc", 3, 1), b"");
    assert_eq!(read_at(b"abc", u64::MAX, 1), b"");
}

#[test]
fn seeks_resolve_against_cursor_and_end() {
    assert_eq!(SeekFrom::Start(7).resolve(1, 2), Some(7));
    assert_eq!(SeekFrom::End(-2).resolve(1, 2), Some(0));
    assert_eq!(SeekFrom::End(-3).resolve(1, 2), None);
    assert_eq!(SeekFrom::Current(4).resolve(1, 2), Some(5));
    assert_eq!(SeekFrom::Current(1).resolve(u64::MAX, 2), None);
}

#[test]
fn ranges_select_what_exists() {
    assert_eq!(copy_clip(b"abcdef", 1, 3), b"bc");
    assert_eq!(copy_clip(b"abcdef", 4, 100), b"ef");
    assert_eq!(copy_clip(b"abcdef", 6, 7), b"");
    assert_eq!(copy_clip(b"abcdef", 3, 1), b"");
}

#[test]
fn adjacent_ranges_join() {
    let mut joined = copy_clip(b"abcdef", 1, 3);
    joined.extend(copy_clip(b"abcdef", 3, 5));
    assert_eq!(joined, copy_clip(b"abcdef", 1, 5));
    assert_eq!(copy_clip(&copy_clip(b"abcdef", 1, 5), 1, 10), copy_clip(b"abcdef", 2, 5));
}

#[test]
fn full_range_is_known() {
    assert!(ByteRange::full().is_full());
    assert!(!ByteRange::new(1, u64::MAX).is_full());
    assert!(!ByteRange::new(0, 5).is_full());
    assert_eq!(ByteRange::new(3, 5).len(), 2);
    assert_eq!(ByteRange::new(5, 3).len(), 0);
}
