//! Encodings of bytes as text.
use vstd::prelude::*;

verus! {

/// The base64 character of a number of six bits.
pub open spec fn base64_char(value: int) -> char {
    if value < 26 {
        (65 + value) as u8 as char
    } else if value < 52 {
        (71 + value) as u8 as char
    } else if value < 62 {
        (value - 4) as u8 as char
    } else if value == 62 {
        '+'
    } else {
        '/'
    }
}

/// The base64 form of `bytes`, in one line, filled up to whole groups.
pub open spec fn base64_text(bytes: Seq<u8>) -> Seq<char>
    decreases bytes.len(),
{
    if bytes.len() == 0 {
        Seq::empty()
    } else if bytes.len() == 1 {
        seq![base64_char(bytes[0] as int / 4), base64_char(bytes[0] as int % 4 * 16), '=', '=']
    } else if bytes.len() == 2 {
        seq![
            base64_char(bytes[0] as int / 4),
            base64_char(bytes[0] as int % 4 * 16 + bytes[1] as int / 16),
            base64_char(bytes[1] as int % 16 * 4),
            '=',
        ]
    } else {
        seq![
            base64_char(bytes[0] as int / 4),
            base64_char(bytes[0] as int % 4 * 16 + bytes[1] as int / 16),
            base64_char(bytes[1] as int % 16 * 4 + bytes[2] as int / 64),
            base64_char(bytes[2] as int % 64),
        ] + base64_text(bytes.skip(3))
    }
}

/// `mail_builder::encoders::Base64Encoder::encode`: the standard alphabet, with
/// padding and without line breaks.
#[verifier::external_body]
pub(crate) fn to_base64(bytes: &[u8]) -> (text: String)
    ensures
        text@ == base64_text(bytes@),
{
    String::from_utf8(
        mail_builder::encoders::Base64Encoder::new().encode(bytes).unwrap_or_default(),
    ).unwrap_or_default()
}

/// `mail_parser::Encoding::None` as a number, which is zero.
#[verifier::external_body]
pub(crate) fn encoding_none() -> (encoding: u8)
    ensures
        encoding == 0,
{
    mail_parser::Encoding::None as u8
}

/// `std::str::from_utf8`: the text that the bytes encode, if they encode one.
#[verifier::external_body]
pub(crate) fn to_text(bytes: &[u8]) -> (text: Option<String>)
    ensures
        text is Some <==> vstd::utf8::valid_utf8(bytes@),
        text matches Some(text) ==> text@ == vstd::utf8::decode_utf8(bytes@),
{
    std::str::from_utf8(bytes).ok().map(|text| text.to_owned())
}

} // verus!
