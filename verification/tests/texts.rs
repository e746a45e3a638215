use blob_store::jumbo::tempfile_name;
use blob_store::text::{byte_len, escape_quotes, to_decimal, to_hex, to_hex_pairs};

#[test]
fn numbers_in_decimal() {
    assert_eq!(to_decimal(0), "0");
    assert_eq!(to_decimal(10), "10");
    assert_eq!(to_decimal(u64::MAX), "18446744073709551615");
}

#[test]
fn numbers_in_hexadecimal() {
    assert_eq!(to_hex(0), "0");
    assert_eq!(to_hex(0x1f), "1f");
    assert_eq!(to_hex(u128::MAX), "f".repeat(32));
    assert_ne!(to_hex(0x10), to_hex(0x1));
}

#[test]
fn bytes_in_hexadecimal() {
    assert_eq!(to_hex_pairs(&[]), "");
    assert_eq!(to_hex_pairs(&[0, 15, 16, 255]), "000f10ff");
}

#[test]
fn quotes_are_escaped() {
    assert_eq!(escape_quotes(""), "");
    assert_eq!(escape_quotes("plain \u{e9}"), "plain \u{e9}");
    assert_eq!(escape_quotes("a\"b\""), "a\\\"b\\\"");
}

#[test]
fn length_counts_bytes() {
    assert_eq!(byte_len("abc"), 3);
    assert_eq!(byte_len("\u{e9}\u{20ac}"), 5);
}

#[test]
fn temporary_files_have_their_own_names() {
    assert_eq!(tempfile_name(255, 16), "stalwart_ff_10.temp");
    assert_ne!(tempfile_name(1, 0x23), tempfile_name(0x12, 3));
    assert_ne!(tempfile_name(1, 2), tempfile_name(1, 3));
}
