//! The parts of a HTTP response: `hyper::http`.
use vstd::prelude::*;

verus! {

/// `http::response::Builder`, a response in the making.
#[verifier::external_type_specification]
#[verifier::external_body]
pub struct ExBuilder(hyper::http::response::Builder);

/// The headers that were added to a response, in order: each with its name in
/// lower case and its value. None once something that is no header was added.
pub uninterp spec fn headers_of(builder: hyper::http::response::Builder) -> Option<
    Seq<(Seq<char>, Seq<char>)>,
>;

/// The status of a response.
pub uninterp spec fn status_of(builder: hyper::http::response::Builder) -> u16;

/// The number of headers up to which a response is known to take any more.
pub const HEADER_ROOM: usize = 4096;

/// A character in lower case, if it is an ASCII letter.
pub open spec fn lower_char(c: char) -> char {
    if 'A' <= c <= 'Z' {
        ((c as u8) + 32) as u8 as char
    } else {
        c
    }
}

/// A text with its ASCII letters in lower case.
pub open spec fn lower(text: Seq<char>) -> Seq<char> {
    text.map_values(|c: char| lower_char(c))
}

/// Whether a character may occur in a header's name.
pub open spec fn is_name_char(c: char) -> bool {
    ||| '0' <= c <= '9'
    ||| 'A' <= c <= 'Z'
    ||| 'a' <= c <= 'z'
    ||| "!#$%&'*+-.^_`|~"@.contains(c)
}

/// Whether a text is a header's name.
pub open spec fn is_header_name(name: Seq<char>) -> bool {
    &&& 0 < name.len() <= 65535
    &&& forall|i: int| 0 <= i < name.len() ==> is_name_char(#[trigger] name[i])
}

/// Whether a text is a header's value: it has no control characters but tabs.
pub open spec fn is_header_value(value: Seq<char>) -> bool {
    forall|i: int|
        0 <= i < value.len() ==> (#[trigger] value[i] >= ' ' && value[i] != 127 as char)
            || value[i] == '\t'
}

/// The headers with one more. What is no header leaves none.
pub open spec fn add_header(
    headers: Option<Seq<(Seq<char>, Seq<char>)>>,
    name: Seq<char>,
    value: Seq<char>,
) -> Option<Seq<(Seq<char>, Seq<char>)>> {
    match headers {
        Some(headers) => if is_header_name(name) && is_header_value(value) {
            Some(headers.push((lower(name), value)))
        } else {
            None
        },
        None => None,
    }
}

/// Whether `n` more headers are known to find room.
pub open spec fn has_room(headers: Option<Seq<(Seq<char>, Seq<char>)>>, n: nat) -> bool {
    headers matches Some(headers) ==> headers.len() + n <= HEADER_ROOM
}

/// `Response::builder().status`: a response without headers.
#[verifier::external_body]
pub(crate) fn new_builder(status: u16) -> (builder: hyper::http::response::Builder)
    requires
        100 <= status <= 999,
    ensures
        headers_of(builder) == Some(Seq::<(Seq<char>, Seq<char>)>::empty()),
        status_of(builder) == status,
{
    hyper::Response::builder().status(status)
}

/// `Builder::status`: the response with another status.
#[verifier::external_body]
pub(crate) fn set_status(builder: hyper::http::response::Builder, status: u16) -> (result:
    hyper::http::response::Builder)
    requires
        100 <= status <= 999,
    ensures
        headers_of(result) == headers_of(builder),
        headers_of(builder) is Some ==> status_of(result) == status,
{
    builder.status(status)
}

/// `Builder::header`: adds a header behind those of the same name. A name or a
/// value that is none spoils the response. Nothing is said of a response that
/// already has very many headers.
#[verifier::external_body]
pub(crate) fn push_header(
    builder: hyper::http::response::Builder,
    name: &str,
    value: &str,
) -> (result: hyper::http::response::Builder)
    ensures
        has_room(headers_of(builder), 1) ==> headers_of(result) == add_header(
            headers_of(builder),
            name@,
            value@,
        ),
        headers_of(result) is Some ==> status_of(result) == status_of(builder),
{
    builder.header(name, value)
}

/// `Builder::headers_ref` and `HeaderMap::contains_key` with the name
/// `content-length`.
#[verifier::external_body]
pub(crate) fn has_content_length(builder: &hyper::http::response::Builder) -> (has: bool)
    ensures
        has == (headers_of(*builder) matches Some(headers) && exists|i: int|
            0 <= i < headers.len() && (#[trigger] headers[i]).0 == "content-length"@),
{
    builder.headers_ref().is_some_and(|headers| headers.contains_key("content-length"))
}

/// The characters of a list of names and values.
pub open spec fn header_texts(headers: Seq<(String, String)>) -> Seq<(Seq<char>, Seq<char>)> {
    headers.map_values(|header: (String, String)| (header.0@, header.1@))
}

/// `Builder::headers_ref` and `HeaderMap::iter`: the names and values, in an order
/// that is not said, unless the response is spoilt.
#[verifier::external_body]
pub(crate) fn list_headers(builder: &hyper::http::response::Builder) -> (headers: Option<
    Vec<(String, String)>,
>)
    ensures
        headers is Some <==> headers_of(*builder) is Some,
        headers matches Some(list) ==> header_texts(list@).to_multiset() == (headers_of(
            *builder,
        )->0).to_multiset(),
{
    builder.headers_ref().map(
        |headers|
            headers.iter().map(
                |(name, value)|
                    (name.to_string(), String::from_utf8_lossy(value.as_bytes()).into_owned()),
            ).collect(),
    )
}

/// The phrase that goes with a status, if there is one.
pub uninterp spec fn reason_phrase(status: u16) -> Option<Seq<char>>;

/// `StatusCode::canonical_reason`.
#[verifier::external_body]
pub(crate) fn canonical_reason(status: u16) -> (reason: Option<&'static str>)
    requires
        100 <= status <= 999,
    ensures
        match reason {
            Some(reason) => reason_phrase(status) == Some(reason@),
            None => reason_phrase(status) is None,
        },
{
    hyper::StatusCode::from_u16(status).ok().and_then(|status| status.canonical_reason())
}

} // verus!
