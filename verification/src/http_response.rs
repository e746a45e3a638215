//! Responses to HTTP requests.
use vstd::prelude::*;
use vstd::string::*;
use crate::foreign::bytes_buf;
use crate::foreign::headers;
use crate::foreign::headers::{
    canonical_reason, has_content_length, list_headers, new_builder, push_header, set_status,
};
use crate::foreign::json;
use crate::foreign::json::write_object;
use crate::text;
use crate::text::{byte_len, escape_quotes, to_decimal};

verus! {

/// The number of bytes that are read at a time to be sent.
pub const BODY_CHUNK_LEN: usize = 32768;

/// The headers of a response that sends the client elsewhere.
pub open spec fn redirect_headers(location: Seq<char>) -> Option<Seq<(Seq<char>, Seq<char>)>> {
    headers::add_header(Some(Seq::empty()), "location"@, location)
}

/// A status: a number of three digits.
#[derive(Clone, Copy, Debug, PartialEq, Eq, Structural)]
pub struct StatusCode {
    code: u16,
}

/// Whether a number is a status.
pub open spec fn is_status(code: u16) -> bool {
    100 <= code <= 999
}

impl StatusCode {
    #[verifier::type_invariant]
    spec fn well_formed(self) -> bool {
        100 <= self.code <= 999
    }

    /// The number.
    pub closed spec fn spec_code(self) -> u16 {
        self.code
    }

    /// The status of a number, if that has three digits.
    pub fn from_u16(code: u16) -> (status: Option<StatusCode>)
        ensures
            status is Some <==> is_status(code),
            status matches Some(status) ==> status.spec_code() == code,
    {
        if 100 <= code && code <= 999 {
            Some(StatusCode { code })
        } else {
            None
        }
    }

    /// The number.
    pub fn as_u16(&self) -> (code: u16)
        ensures
            code == self.spec_code(),
            100 <= code <= 999,
    {
        proof {
            use_type_invariant(self);
        }
        self.code
    }

    /// 200.
    pub fn ok() -> (status: StatusCode)
        ensures
            status.spec_code() == 200,
    {
        StatusCode { code: 200 }
    }

    /// 302.
    pub fn found() -> (status: StatusCode)
        ensures
            status.spec_code() == 302,
    {
        StatusCode { code: 302 }
    }

    /// The phrase that goes with the status, or nothing.
    pub fn reason(&self) -> (reason: &'static str)
        ensures
            reason@ == reason_text(self.spec_code()),
    {
        proof {
            use_type_invariant(self);
            reveal_strlit("");
        }
        match canonical_reason(self.code) {
            Some(reason) => reason,
            None => {
                assert(""@ =~= Seq::<char>::empty());
                ""
            },
        }
    }
}

/// The phrase that goes with a status, or nothing.
pub open spec fn reason_text(status: u16) -> Seq<char> {
    match headers::reason_phrase(status) {
        Some(reason) => reason,
        None => Seq::empty(),
    }
}

/// A body that is read while it is sent.
#[derive(Clone, Copy, Debug, PartialEq, Eq, Structural)]
pub struct IoBody {
    pub open: bool,
    pub body_len: Option<u64>,
}

/// What has to be done for the next piece of a body.
#[derive(Clone, Copy, Debug, PartialEq, Eq, Structural)]
pub enum BodyStep {
    /// Nothing: there is no more.
    End,
    /// Read at most so many bytes, and hand them over.
    Read(usize),
}

/// What becomes of a body when bytes of it were read, and what is sent of them.
pub open spec fn body_takes_in(
    before: IoBody,
    after: IoBody,
    bytes: Vec<u8>,
    frame: Option<Vec<u8>>,
) -> bool {
    &&& after.body_len == before.body_len
    &&& bytes@.len() == 0 ==> frame is None && !after.open
    &&& bytes@.len() > 0 ==> frame == Some(bytes) && after.open
}

impl IoBody {
    /// A body that nothing was read of.
    pub fn new(body_len: Option<u64>) -> (body: IoBody)
        ensures
            body.open,
            body.body_len == body_len,
    {
        IoBody { open: true, body_len }
    }

    /// Whether there is no more.
    pub open spec fn has_ended(self) -> bool {
        !self.open
    }

    /// The length of the whole body, if it is known.
    pub open spec fn hint(self) -> Option<u64> {
        self.body_len
    }

    /// What has to be done for the next piece.
    pub open spec fn next_step(self) -> BodyStep {
        if self.open {
            BodyStep::Read(BODY_CHUNK_LEN)
        } else {
            BodyStep::End
        }
    }

    /// Asks for the next piece.
    pub fn poll_frame(&self) -> (step: BodyStep)
        ensures
            step == self.next_step(),
    {
        if self.open {
            BodyStep::Read(BODY_CHUNK_LEN)
        } else {
            BodyStep::End
        }
    }

    /// Takes in what was read: the next piece, or the end where that is nothing.
    pub fn frame_read(&mut self, bytes: Vec<u8>) -> (frame: Option<Vec<u8>>)
        requires
            old(self).open,
        ensures
            body_takes_in(*old(self), *final(self), bytes, frame),
    {
        if bytes.len() == 0 {
            self.open = false;
            None
        } else {
            Some(bytes)
        }
    }

    /// Whether there is no more.
    pub fn is_end_stream(&self) -> (end: bool)
        ensures
            end == self.has_ended(),
    {
        !self.open
    }

    /// The length of the whole body, if it is known.
    pub fn size_hint(&self) -> (len: Option<u64>)
        ensures
            len == self.hint(),
    {
        self.body_len
    }
}

/// The body of a response. What is streamed belongs to the application.
#[derive(Debug)]
pub enum HttpResponseBody<S> {
    Text(String),
    Binary(Vec<u8>),
    Stream(S),
    IoRead { source: S, state: IoBody },
    WebsocketUpgrade(String),
    Empty,
}

/// A response in the making.
pub struct HttpResponse<S> {
    status: StatusCode,
    builder: hyper::http::response::Builder,
    body: HttpResponseBody<S>,
}

/// The body of a response that is ready to be sent.
#[derive(Debug)]
pub enum BuiltBody<S> {
    /// All of it.
    Full(bytes::Bytes),
    Stream(S),
    IoRead { source: S, state: IoBody },
}

/// A response that is ready to be sent.
pub struct BuiltResponse<S> {
    pub builder: hyper::http::response::Builder,
    pub body: BuiltBody<S>,
}

impl<S> BuiltResponse<S> {
    /// The headers, in the order in which they were added.
    pub open spec fn header_set(self) -> Option<Seq<(Seq<char>, Seq<char>)>> {
        headers::headers_of(self.builder)
    }

    /// The number of the status.
    pub open spec fn status_code(self) -> u16 {
        headers::status_of(self.builder)
    }
}

impl<S> HttpResponse<S> {
    /// The status is the one that is sent, unless something was added that is no
    /// header.
    #[verifier::type_invariant]
    spec fn well_formed(self) -> bool {
        headers::headers_of(self.builder) is Some ==> headers::status_of(self.builder)
            == self.status.code
    }

    /// The headers, in the order in which they were added.
    pub closed spec fn header_set(self) -> Option<Seq<(Seq<char>, Seq<char>)>> {
        headers::headers_of(self.builder)
    }

    /// The status.
    pub closed spec fn spec_status(self) -> StatusCode {
        self.status
    }

    /// The body.
    pub closed spec fn spec_body(self) -> HttpResponseBody<S> {
        self.body
    }

    /// Whether this is `before` with one more header.
    pub open spec fn adds(self, before: HttpResponse<S>, name: Seq<char>, value: Seq<char>) -> bool {
        &&& self.spec_status() == before.spec_status()
        &&& self.spec_body() == before.spec_body()
        &&& headers::has_room(before.header_set(), 1) ==> self.header_set() == headers::add_header(
            before.header_set(),
            name,
            value,
        )
    }

    /// The number of bytes of the body, where the response holds them.
    pub open spec fn held(self) -> nat {
        match self.spec_body() {
            HttpResponseBody::Text(body) => text::byte_size(body@),
            HttpResponseBody::Binary(body) => body@.len(),
            _ => 0,
        }
    }

    /// Whether this is `before` with a text as its body, and its length.
    pub open spec fn sets_text(self, before: HttpResponse<S>, body: String) -> bool {
        &&& self.spec_status() == before.spec_status()
        &&& self.spec_body() == HttpResponseBody::<S>::Text(body)
        &&& headers::has_room(before.header_set(), 1) ==> self.header_set() == headers::add_header(
            before.header_set(),
            "content-length"@,
            text::decimal(text::byte_size(body@)),
        )
    }

    /// Whether this is `before` with an XML text as its body, its length and its type.
    pub open spec fn sets_xml(self, before: HttpResponse<S>, body: String) -> bool {
        &&& self.spec_status() == before.spec_status()
        &&& self.spec_body() == HttpResponseBody::<S>::Text(body)
        &&& headers::has_room(before.header_set(), 2) ==> self.header_set() == headers::add_header(
            headers::add_header(
                before.header_set(),
                "content-length"@,
                text::decimal(text::byte_size(body@)),
            ),
            "content-type"@,
            "application/xml; charset=utf-8"@,
        )
    }

    /// Whether `built` is what becomes of this response when it is to be sent, if anything.
    pub open spec fn becomes(self, built: Option<BuiltResponse<S>>) -> bool {
        &&& headers::has_room(self.header_set(), 4) ==> (built is Some <==> self.sent_headers() is Some)
        &&& built matches Some(built) ==> {
            &&& self.sends(built.body)
            &&& built.header_set() is Some
            &&& built.status_code() == self.spec_status().spec_code()
            &&& headers::has_room(self.header_set(), 4) ==> built.header_set()
                == self.sent_headers()
        }
    }

    /// Whether this is `before` with bytes as its body, and their number.
    pub open spec fn sets_binary(self, before: HttpResponse<S>, body: Vec<u8>) -> bool {
        &&& self.spec_status() == before.spec_status()
        &&& self.spec_body() == HttpResponseBody::<S>::Binary(body)
        &&& headers::has_room(before.header_set(), 1) ==> self.header_set() == headers::add_header(
            before.header_set(),
            "content-length"@,
            text::decimal(body@.len()),
        )
    }

    /// Whether this is `before` with a source as its body, and its length, if that is known.
    pub open spec fn sets_source(
        self,
        before: HttpResponse<S>,
        source: S,
        body_len: Option<u64>,
    ) -> bool {
        &&& self.spec_status() == before.spec_status()
        &&& self.spec_body() == (HttpResponseBody::IoRead {
            source,
            state: IoBody { open: true, body_len },
        })
        &&& match body_len {
            Some(len) => headers::has_room(before.header_set(), 1) ==> self.header_set()
                == headers::add_header(
                before.header_set(),
                "content-length"@,
                text::decimal(len as nat),
            ),
            None => self.header_set() == before.header_set(),
        }
    }

    /// A response without headers and body.
    pub fn new(status: StatusCode) -> (response: HttpResponse<S>)
        ensures
            response.spec_status() == status,
            response.spec_body() == HttpResponseBody::<S>::Empty,
            response.header_set() == Some(Seq::<(Seq<char>, Seq<char>)>::empty()),
    {
        proof {
            use_type_invariant(&status);
        }
        HttpResponse { status, builder: new_builder(status.code), body: HttpResponseBody::Empty }
    }

    /// Adds a header.
    pub fn with_header(self, name: &str, value: &str) -> (response: HttpResponse<S>)
        ensures
            response.adds(self, name@, value@),
    {
        proof {
            use_type_invariant(&self);
        }
        HttpResponse {
            status: self.status,
            builder: push_header(self.builder, name, value),
            body: self.body,
        }
    }

    /// Sends the client elsewhere.
    pub fn redirect(location: String) -> (response: HttpResponse<S>)
        ensures
            response.spec_status().spec_code() == 302,
            response.spec_body() == HttpResponseBody::<S>::Empty,
            response.header_set() == redirect_headers(location@),
    {
        HttpResponse::new(StatusCode::found()).with_header("location", location.as_str())
    }

    /// Adds the media type of the body.
    pub fn with_content_type(self, content_type: &str) -> (response: HttpResponse<S>)
        ensures
            response.adds(self, "content-type"@, content_type@),
    {
        self.with_header("content-type", content_type)
    }

    /// Sets another status.
    pub fn with_status_code(self, status: StatusCode) -> (response: HttpResponse<S>)
        ensures
            response.spec_status() == status,
            response.spec_body() == self.spec_body(),
            response.header_set() == self.header_set(),
    {
        proof {
            use_type_invariant(&status);
            use_type_invariant(&self);
        }
        HttpResponse {
            status,
            builder: set_status(self.builder, status.code),
            body: self.body,
        }
    }

    /// Adds the length of the body.
    pub fn with_content_length(self, content_length: u64) -> (response: HttpResponse<S>)
        ensures
            response.adds(self, "content-length"@, text::decimal(content_length as nat)),
    {
        self.with_header("content-length", to_decimal(content_length).as_str())
    }

    /// Adds which part of a resource the body is.
    pub fn with_content_range(self, content_range: String) -> (response: HttpResponse<S>)
        ensures
            response.adds(self, "content-range"@, content_range@),
    {
        self.with_header("content-range", content_range.as_str())
    }

    /// Says that parts of the resource can be asked for.
    pub fn with_accept_ranges(self) -> (response: HttpResponse<S>)
        ensures
            response.adds(self, "accept-ranges"@, "bytes"@),
    {
        self.with_header("accept-ranges", "bytes")
    }

    /// Adds the tag of the resource's version.
    pub fn with_etag(self, etag: String) -> (response: HttpResponse<S>)
        ensures
            response.adds(self, "etag"@, etag@),
    {
        self.with_header("etag", etag.as_str())
    }

    /// Adds the tag of the resource's version, if there is one.
    pub fn with_etag_opt(self, etag: Option<String>) -> (response: HttpResponse<S>)
        ensures
            match etag {
                Some(etag) => response.adds(self, "etag"@, etag@),
                None => response == self,
            },
    {
        match etag {
            Some(etag) => self.with_etag(etag),
            None => self,
        }
    }

    /// Adds the tag of a scheduling object's version, if there is one.
    pub fn with_schedule_tag_opt(self, tag: Option<u32>) -> (response: HttpResponse<S>)
        ensures
            match tag {
                Some(tag) => response.adds(
                    self,
                    "Schedule-Tag"@,
                    "\""@ + text::decimal(tag as nat) + "\""@,
                ),
                None => response == self,
            },
    {
        match tag {
            Some(tag) => {
                let mut value = String::from_str("\"");
                value.append(to_decimal(tag as u64).as_str());
                value.append("\"");
                self.with_header("Schedule-Tag", value.as_str())
            },
            None => self,
        }
    }

    /// Adds when the resource was changed.
    pub fn with_last_modified(self, last_modified: String) -> (response: HttpResponse<S>)
        ensures
            response.adds(self, "last-modified"@, last_modified@),
    {
        self.with_header("last-modified", last_modified.as_str())
    }

    /// Adds the token of a lock.
    pub fn with_lock_token(self, token_uri: &str) -> (response: HttpResponse<S>)
        ensures
            response.adds(self, "Lock-Token"@, "<"@ + token_uri@ + ">"@),
    {
        let mut value = String::from_str("<");
        value.append(token_uri);
        value.append(">");
        self.with_header("Lock-Token", value.as_str())
    }

    /// Sets a text as the body, and adds its length.
    pub fn with_text_body(self, body: String) -> (response: HttpResponse<S>)
        ensures
            response.sets_text(self, body),
    {
        proof {
            use_type_invariant(&self);
        }
        let len: usize = byte_len(body.as_str());
        let with_body = HttpResponse {
            status: self.status,
            builder: self.builder,
            body: HttpResponseBody::Text(body),
        };
        with_body.with_content_length(len as u64)
    }

    /// Sets an XML text as the body, and adds its length and its media type.
    pub fn with_xml_body(self, body: String) -> (response: HttpResponse<S>)
        ensures
            response.sets_xml(self, body),
    {
        self.with_text_body(body).with_content_type("application/xml; charset=utf-8")
    }

    /// Sets bytes as the body, and adds their number.
    pub fn with_binary_body(self, body: Vec<u8>) -> (response: HttpResponse<S>)
        ensures
            response.sets_binary(self, body),
    {
        proof {
            use_type_invariant(&self);
        }
        let len: usize = body.len();
        let with_body = HttpResponse {
            status: self.status,
            builder: self.builder,
            body: HttpResponseBody::Binary(body),
        };
        with_body.with_content_length(len as u64)
    }

    /// Sets a stream as the body.
    pub fn with_stream_body(self, stream: S) -> (response: HttpResponse<S>)
        ensures
            response.spec_status() == self.spec_status(),
            response.spec_body() == HttpResponseBody::Stream(stream),
            response.header_set() == self.header_set(),
    {
        proof {
            use_type_invariant(&self);
        }
        HttpResponse {
            status: self.status,
            builder: self.builder,
            body: HttpResponseBody::Stream(stream),
        }
    }

    /// Sets a source to be read as the body, and adds its length, if it is known.
    pub fn with_io_read_body(self, source: S, body_len: Option<u64>) -> (response: HttpResponse<S>)
        ensures
            response.sets_source(self, source, body_len),
    {
        proof {
            use_type_invariant(&self);
        }
        let with_body = HttpResponse {
            status: self.status,
            builder: self.builder,
            body: HttpResponseBody::IoRead { source, state: IoBody::new(body_len) },
        };
        match body_len {
            Some(len) => with_body.with_content_length(len),
            None => with_body,
        }
    }

    /// Answers a request to go on with a web socket.
    pub fn with_websocket_upgrade(self, derived_key: String) -> (response: HttpResponse<S>)
        ensures
            response.spec_status() == self.spec_status(),
            response.spec_body() == HttpResponseBody::<S>::WebsocketUpgrade(derived_key),
            response.header_set() == self.header_set(),
    {
        proof {
            use_type_invariant(&self);
        }
        HttpResponse {
            status: self.status,
            builder: self.builder,
            body: HttpResponseBody::WebsocketUpgrade(derived_key),
        }
    }

    /// Adds how the body is to be presented.
    pub fn with_content_disposition(self, content_disposition: &str) -> (response: HttpResponse<S>)
        ensures
            response.adds(self, "content-disposition"@, content_disposition@),
    {
        self.with_header("content-disposition", content_disposition)
    }

    /// Adds how the response may be cached.
    pub fn with_cache_control(self, cache_control: &str) -> (response: HttpResponse<S>)
        ensures
            response.adds(self, "cache-control"@, cache_control@),
    {
        self.with_header("cache-control", cache_control)
    }

    /// Forbids to store the response.
    pub fn with_no_store(self) -> (response: HttpResponse<S>)
        ensures
            response.adds(self, "cache-control"@, "no-store, no-cache, must-revalidate"@),
    {
        self.with_header("cache-control", "no-store, no-cache, must-revalidate")
    }

    /// Forbids to use the stored response unasked.
    pub fn with_no_cache(self) -> (response: HttpResponse<S>)
        ensures
            response.adds(self, "cache-control"@, "no-cache"@),
    {
        self.with_header("cache-control", "no-cache")
    }

    /// Lets the response be stored for a year.
    pub fn with_immutable_cache(self) -> (response: HttpResponse<S>)
        ensures
            response.adds(self, "cache-control"@, "public, max-age=31536000, immutable"@),
    {
        self.with_header("cache-control", "public, max-age=31536000, immutable")
    }

    /// Adds where the resource is.
    pub fn with_location(self, location: &str) -> (response: HttpResponse<S>)
        ensures
            response.adds(self, "location"@, location@),
    {
        self.with_header("location", location)
    }

    /// Lets pages of any origin use the response.
    pub fn with_cors_unrestricted(self) -> (response: HttpResponse<S>)
        ensures
            response.spec_status() == self.spec_status(),
            response.spec_body() == self.spec_body(),
            headers::has_room(self.header_set(), 3) ==> response.header_set() == headers::add_header(
                headers::add_header(
                    headers::add_header(self.header_set(), "access-control-allow-origin"@, "*"@),
                    "access-control-allow-headers"@,
                    "Authorization, Content-Type, Accept, X-Requested-With"@,
                ),
                "access-control-allow-methods"@,
                "POST, GET, PATCH, PUT, DELETE, HEAD, OPTIONS"@,
            ),
    {
        self.with_header("access-control-allow-origin", "*").with_header(
            "access-control-allow-headers",
            "Authorization, Content-Type, Accept, X-Requested-With",
        ).with_header(
            "access-control-allow-methods",
            "POST, GET, PATCH, PUT, DELETE, HEAD, OPTIONS",
        )
    }

    /// The number of bytes of the body, where the response holds them.
    pub fn size(&self) -> (size: usize)
        ensures
            size == self.held(),
    {
        match &self.body {
            HttpResponseBody::Text(body) => byte_len(body.as_str()),
            HttpResponseBody::Binary(body) => body.len(),
            _ => 0,
        }
    }

    /// The body.
    pub fn body(&self) -> (body: &HttpResponseBody<S>)
        ensures
            *body == self.spec_body(),
    {
        &self.body
    }

    /// The status.
    pub fn status(&self) -> (status: StatusCode)
        ensures
            status == self.spec_status(),
    {
        self.status
    }

    /// The names and values of the headers, in no order that is said, unless
    /// something was added that is no header.
    pub fn headers(&self) -> (headers: Option<Vec<(String, String)>>)
        ensures
            headers is Some <==> self.header_set() is Some,
            headers matches Some(list) ==> headers::header_texts(list@).to_multiset() == (
            self.header_set()->0).to_multiset(),
    {
        list_headers(&self.builder)
    }

    /// Whether the length of the body was added.
    pub open spec fn has_length(self) -> bool {
        self.header_set() matches Some(headers) && exists|i: int|
            0 <= i < headers.len() && (#[trigger] headers[i]).0 == "content-length"@
    }

    /// The headers that are sent: an empty body has the length zero, if it was
    /// given none, and a web socket is agreed upon.
    pub open spec fn sent_headers(self) -> Option<Seq<(Seq<char>, Seq<char>)>> {
        match self.spec_body() {
            HttpResponseBody::Empty => if self.has_length() {
                self.header_set()
            } else {
                headers::add_header(self.header_set(), "content-length"@, "0"@)
            },
            HttpResponseBody::WebsocketUpgrade(derived_key) => headers::add_header(
                headers::add_header(
                    headers::add_header(
                        headers::add_header(self.header_set(), "connection"@, "upgrade"@),
                        "upgrade"@,
                        "websocket"@,
                    ),
                    "Sec-WebSocket-Accept"@,
                    derived_key@,
                ),
                "Sec-WebSocket-Protocol"@,
                "jmap"@,
            ),
            _ => self.header_set(),
        }
    }

    /// Whether `body` is what is sent for this response.
    pub open spec fn sends(self, body: BuiltBody<S>) -> bool {
        match self.spec_body() {
            HttpResponseBody::Text(text) => body matches BuiltBody::Full(bytes)
                && bytes_buf::content(bytes) == vstd::utf8::encode_utf8(text@),
            HttpResponseBody::Binary(data) => body matches BuiltBody::Full(bytes)
                && bytes_buf::content(bytes) == data@,
            HttpResponseBody::Empty => body matches BuiltBody::Full(bytes) && bytes_buf::content(
                bytes,
            ).len() == 0,
            HttpResponseBody::Stream(stream) => body == BuiltBody::Stream(stream),
            HttpResponseBody::IoRead { source, state } => body == (BuiltBody::IoRead {
                source,
                state,
            }),
            HttpResponseBody::WebsocketUpgrade(_) => body matches BuiltBody::Full(bytes)
                && bytes_buf::content(bytes) == vstd::utf8::encode_utf8(
                "Switching to WebSocket protocol"@,
            ),
        }
    }

    /// Makes the response ready, whatever was added to it.
    fn finish(self) -> (built: BuiltResponse<S>)
        ensures
            self.sends(built.body),
            headers::has_room(self.header_set(), 4) ==> built.header_set() == self.sent_headers(),
            built.header_set() is Some ==> built.status_code() == self.spec_status().spec_code(),
    {
        proof {
            use_type_invariant(&self);
        }
        match self.body {
            HttpResponseBody::Text(body) => BuiltResponse {
                builder: self.builder,
                body: BuiltBody::Full(bytes_buf::from_string(body)),
            },
            HttpResponseBody::Binary(body) => BuiltResponse {
                builder: self.builder,
                body: BuiltBody::Full(bytes_buf::from_vec(body)),
            },
            HttpResponseBody::Empty => {
                let builder = if has_content_length(&self.builder) {
                    self.builder
                } else {
                    push_header(self.builder, "content-length", "0")
                };
                BuiltResponse { builder, body: BuiltBody::Full(bytes_buf::empty()) }
            },
            HttpResponseBody::Stream(stream) => BuiltResponse {
                builder: self.builder,
                body: BuiltBody::Stream(stream),
            },
            HttpResponseBody::IoRead { source, state } => BuiltResponse {
                builder: self.builder,
                body: BuiltBody::IoRead { source, state },
            },
            HttpResponseBody::WebsocketUpgrade(derived_key) => {
                let builder = push_header(self.builder, "connection", "upgrade");
                let builder = push_header(builder, "upgrade", "websocket");
                let builder = push_header(builder, "Sec-WebSocket-Accept", derived_key.as_str());
                let builder = push_header(builder, "Sec-WebSocket-Protocol", "jmap");
                BuiltResponse {
                    builder,
                    body: BuiltBody::Full(
                        bytes_buf::from_string(
                            String::from_str("Switching to WebSocket protocol"),
                        ),
                    ),
                }
            },
        }
    }

    /// Makes the response ready to be sent.
    pub fn build(self) -> (built: BuiltResponse<S>)
        requires
            headers::has_room(self.header_set(), 4),
            self.sent_headers() is Some,
        ensures
            self.sends(built.body),
            built.header_set() == self.sent_headers(),
            built.status_code() == self.spec_status().spec_code(),
    {
        self.finish()
    }

    /// Makes the response ready to be sent, unless something was added to it that
    /// is no header.
    pub fn try_build(self) -> (built: Option<BuiltResponse<S>>)
        ensures
            self.becomes(built),
    {
        let built = self.finish();
        match list_headers(&built.builder) {
            Some(_) => Some(built),
            None => None,
        }
    }
}

/// A JSON document as a response.
#[derive(Debug)]
pub struct JsonResponse {
    pub status: StatusCode,
    /// The JSON text.
    pub inner: String,
    pub no_cache: bool,
}

/// The headers of a body of the given type and length.
pub open spec fn body_headers(content_type: Seq<char>, len: nat) -> Option<
    Seq<(Seq<char>, Seq<char>)>,
> {
    headers::add_header(
        headers::add_header(Some(Seq::empty()), "content-type"@, content_type),
        "content-length"@,
        text::decimal(len),
    )
}

/// The headers of a JSON document.
pub open spec fn json_headers(inner: Seq<char>, no_cache: bool) -> Option<
    Seq<(Seq<char>, Seq<char>)>,
> {
    let headers = body_headers("application/json; charset=utf-8"@, text::byte_size(inner));
    if no_cache {
        headers::add_header(headers, "cache-control"@, "no-store, no-cache, must-revalidate"@)
    } else {
        headers
    }
}

/// The headers of a file to be saved by the client.
pub open spec fn download_headers(
    filename: Seq<char>,
    content_type: Seq<char>,
    content_length: nat,
) -> Option<Seq<(Seq<char>, Seq<char>)>> {
    headers::add_header(
        headers::add_header(
            headers::add_header(
                headers::add_header(Some(Seq::empty()), "content-type"@, content_type),
                "content-disposition"@,
                attachment(filename),
            ),
            "cache-control"@,
            "private, immutable, max-age=31536000"@,
        ),
        "content-length"@,
        text::decimal(content_length),
    )
}

impl JsonResponse {
    /// The response.
    pub fn into_http_response<S>(self) -> (response: HttpResponse<S>)
        ensures
            response.spec_status() == self.status,
            response.spec_body() == HttpResponseBody::<S>::Text(self.inner),
            response.header_set() == json_headers(self.inner@, self.no_cache),
    {
        let response = HttpResponse::new(self.status).with_content_type(
            "application/json; charset=utf-8",
        ).with_text_body(self.inner);
        if self.no_cache {
            response.with_no_store()
        } else {
            response
        }
    }
}

/// A file to be saved by the client.
#[derive(Debug)]
pub struct DownloadResponse<S> {
    pub filename: String,
    pub content_type: String,
    pub blob: S,
    pub content_length: u64,
}

/// How a file of the given name is to be presented.
pub open spec fn attachment(filename: Seq<char>) -> Seq<char> {
    "attachment; filename=\""@ + text::quotes_escaped(filename) + "\""@
}

impl<S> DownloadResponse<S> {
    /// The response.
    pub fn into_http_response(self) -> (response: HttpResponse<S>)
        ensures
            response.spec_status().spec_code() == 200,
            response.spec_body() == (HttpResponseBody::IoRead {
                source: self.blob,
                state: IoBody { open: true, body_len: Some(self.content_length) },
            }),
            response.header_set() == download_headers(
                self.filename@,
                self.content_type@,
                self.content_length as nat,
            ),
    {
        let mut disposition = String::from_str("attachment; filename=\"");
        disposition.append(escape_quotes(self.filename.as_str()).as_str());
        disposition.append("\"");
        HttpResponse::new(StatusCode::ok()).with_content_type(
            self.content_type.as_str(),
        ).with_content_disposition(disposition.as_str()).with_cache_control(
            "private, immutable, max-age=31536000",
        ).with_io_read_body(self.blob, Some(self.content_length))
    }
}

/// A file that the server itself has.
#[derive(Debug)]
pub struct Resource {
    pub content_type: String,
    pub contents: Vec<u8>,
}

impl Resource {
    /// The response.
    pub fn into_http_response<S>(self) -> (response: HttpResponse<S>)
        ensures
            response.spec_status().spec_code() == 200,
            response.spec_body() == HttpResponseBody::<S>::Binary(self.contents),
            response.header_set() == body_headers(self.content_type@, self.contents@.len()),
    {
        HttpResponse::new(StatusCode::ok()).with_content_type(
            self.content_type.as_str(),
        ).with_binary_body(self.contents)
    }
}

/// A page as a response.
#[derive(Debug)]
pub struct HtmlResponse {
    pub status: StatusCode,
    pub body: String,
}

impl HtmlResponse {
    /// The response.
    pub fn into_http_response<S>(self) -> (response: HttpResponse<S>)
        ensures
            response.spec_status() == self.status,
            response.spec_body() == HttpResponseBody::<S>::Text(self.body),
            response.header_set() == body_headers(
                "text/html; charset=utf-8"@,
                text::byte_size(self.body@),
            ),
    {
        HttpResponse::new(self.status).with_content_type(
            "text/html; charset=utf-8",
        ).with_text_body(self.body)
    }
}

/// A problem as a response, with no more to say than its status.
#[derive(Clone, Copy, Debug)]
pub struct JsonProblemResponse(pub StatusCode);

/// The JSON text of a problem.
pub open spec fn problem_text(status: u16) -> Seq<char> {
    json::object_text(
        seq![
            ("type"@, "about:blank"@),
            ("title"@, reason_text(status)),
            ("detail"@, reason_text(status)),
        ],
        seq![("status"@, status as u64)],
    )
}

impl JsonProblemResponse {
    /// The response.
    pub fn into_http_response<S>(self) -> (response: HttpResponse<S>)
        ensures
            response.spec_status() == self.0,
            response.spec_body() matches HttpResponseBody::Text(body) && body@ == problem_text(
                self.0.spec_code(),
            ),
            response.header_set() == body_headers(
                "application/problem+json"@,
                text::byte_size(problem_text(self.0.spec_code())),
            ),
    {
        let reason = self.0.reason();
        let mut texts: Vec<(String, String)> = Vec::new();
        texts.push((String::from_str("type"), String::from_str("about:blank")));
        texts.push((String::from_str("title"), String::from_str(reason)));
        texts.push((String::from_str("detail"), String::from_str(reason)));
        let mut numbers: Vec<(String, u64)> = Vec::new();
        numbers.push((String::from_str("status"), self.0.as_u16() as u64));
        assert(json::text_members(texts@) =~= seq![
            ("type"@, "about:blank"@),
            ("title"@, reason_text(self.0.spec_code())),
            ("detail"@, reason_text(self.0.spec_code())),
        ]);
        assert(json::number_members(numbers@) =~= seq![
            ("status"@, self.0.spec_code() as u64),
        ]);
        HttpResponse::new(self.0).with_content_type("application/problem+json").with_text_body(
            write_object(texts, numbers),
        )
    }
}

/// A body that the response holds is as long as its `content-length` says: the
/// number of bytes that are sent is the number that was added.
pub proof fn law_length_is_sent<S>(response: HttpResponse<S>, body: BuiltBody<S>)
    requires
        response.sends(body),
    ensures
        response.spec_body() matches HttpResponseBody::Text(text) ==> body matches BuiltBody::Full(
            bytes,
        ) && bytes_buf::content(bytes).len() == text::byte_size(text@),
        response.spec_body() matches HttpResponseBody::Binary(data) ==> body matches BuiltBody::Full(
            bytes,
        ) && bytes_buf::content(bytes).len() == data@.len(),
{
}

/// Every name that a response is given here is a header's name, so that only the
/// values can spoil a response.
pub proof fn law_names_are_header_names()
    ensures
        headers::is_header_name("accept-ranges"@),
        headers::is_header_name("access-control-allow-headers"@),
        headers::is_header_name("access-control-allow-methods"@),
        headers::is_header_name("access-control-allow-origin"@),
        headers::is_header_name("cache-control"@),
        headers::is_header_name("connection"@),
        headers::is_header_name("content-disposition"@),
        headers::is_header_name("content-length"@),
        headers::is_header_name("content-range"@),
        headers::is_header_name("content-type"@),
        headers::is_header_name("etag"@),
        headers::is_header_name("last-modified"@),
        headers::is_header_name("location"@),
        headers::is_header_name("Lock-Token"@),
        headers::is_header_name("Schedule-Tag"@),
        headers::is_header_name("Sec-WebSocket-Accept"@),
        headers::is_header_name("Sec-WebSocket-Protocol"@),
        headers::is_header_name("upgrade"@),
{
    assert(headers::is_header_name("accept-ranges"@)) by {
        reveal_strlit("accept-ranges");
        lemma_hyphen();
    }
    assert(headers::is_header_name("access-control-allow-headers"@)) by {
        reveal_strlit("access-control-allow-headers");
        lemma_hyphen();
    }
    assert(headers::is_header_name("access-control-allow-methods"@)) by {
        reveal_strlit("access-control-allow-methods");
        lemma_hyphen();
    }
    assert(headers::is_header_name("access-control-allow-origin"@)) by {
        reveal_strlit("access-control-allow-origin");
        lemma_hyphen();
    }
    assert(headers::is_header_name("cache-control"@)) by {
        reveal_strlit("cache-control");
        lemma_hyphen();
    }
    assert(headers::is_header_name("connection"@)) by {
        reveal_strlit("connection");
        lemma_hyphen();
    }
    assert(headers::is_header_name("content-disposition"@)) by {
        reveal_strlit("content-disposition");
        lemma_hyphen();
    }
    assert(headers::is_header_name("content-length"@)) by {
        reveal_strlit("content-length");
        lemma_hyphen();
    }
    assert(headers::is_header_name("content-range"@)) by {
        reveal_strlit("content-range");
        lemma_hyphen();
    }
    assert(headers::is_header_name("content-type"@)) by {
        reveal_strlit("content-type");
        lemma_hyphen();
    }
    assert(headers::is_header_name("etag"@)) by {
        reveal_strlit("etag");
        lemma_hyphen();
    }
    assert(headers::is_header_name("last-modified"@)) by {
        reveal_strlit("last-modified");
        lemma_hyphen();
    }
    assert(headers::is_header_name("location"@)) by {
        reveal_strlit("location");
        lemma_hyphen();
    }
    assert(headers::is_header_name("Lock-Token"@)) by {
        reveal_strlit("Lock-Token");
        lemma_hyphen();
    }
    assert(headers::is_header_name("Schedule-Tag"@)) by {
        reveal_strlit("Schedule-Tag");
        lemma_hyphen();
    }
    assert(headers::is_header_name("Sec-WebSocket-Accept"@)) by {
        reveal_strlit("Sec-WebSocket-Accept");
        lemma_hyphen();
    }
    assert(headers::is_header_name("Sec-WebSocket-Protocol"@)) by {
        reveal_strlit("Sec-WebSocket-Protocol");
        lemma_hyphen();
    }
    assert(headers::is_header_name("upgrade"@)) by {
        reveal_strlit("upgrade");
        lemma_hyphen();
    }
}

/// A hyphen may occur in a header's name.
proof fn lemma_hyphen()
    ensures
        headers::is_name_char('-'),
{
    reveal_strlit("!#$%&'*+-.^_`|~");
    assert("!#$%&'*+-.^_`|~"@[8] == '-');
}

/// A response with an empty body always says how long its body is.
pub proof fn law_empty_body_has_length<S>(response: HttpResponse<S>)
    requires
        response.spec_body() is Empty,
        response.sent_headers() is Some,
    ensures
        exists|i: int|
            0 <= i < (response.sent_headers()->0).len() && (#[trigger] (
            response.sent_headers()->0)[i]).0 == "content-length"@,
{
    if !response.has_length() {
        let headers = response.sent_headers()->0;
        lemma_content_length_is_lower();
        assert(headers[headers.len() - 1].0 == "content-length"@);
    }
}

/// The name is in lower case.
proof fn lemma_content_length_is_lower()
    ensures
        headers::lower("content-length"@) == "content-length"@,
{
    reveal_strlit("content-length");
    assert(headers::lower("content-length"@) =~= "content-length"@);
}

/// A header that is added comes behind those that are there, which stay as they are, and
/// so do the status and the body. Its name is in lower case, and its value as it was
/// given. What is no header spoils the response, and a spoilt response stays spoilt.
pub proof fn law_header_is_added<S>(
    after: HttpResponse<S>,
    before: HttpResponse<S>,
    name: Seq<char>,
    value: Seq<char>,
)
    requires
        after.adds(before, name, value),
        headers::has_room(before.header_set(), 1),
    ensures
        after.spec_status() == before.spec_status(),
        after.spec_body() == before.spec_body(),
        before.header_set() matches Some(old) ==> {
            if headers::is_header_name(name) && headers::is_header_value(value) {
                &&& after.header_set() matches Some(new)
                &&& new.drop_last() == old
                &&& new.last().0 == headers::lower(name)
                &&& new.last().1 == value
            } else {
                after.header_set() is None
            }
        },
        before.header_set() is None ==> after.header_set() is None,
{
    if let Some(old) = before.header_set() {
        if let Some(new) = after.header_set() {
            assert(new.drop_last() =~= old);
        }
    }
}

/// The digits of a number are a header's value.
proof fn lemma_decimal_is_value(n: nat)
    ensures
        headers::is_header_value(text::decimal(n)),
{
    assert forall|i: int| 0 <= i < text::decimal(n).len() implies (#[trigger] text::decimal(n)[i]
        >= ' ' && text::decimal(n)[i] != 127 as char) || text::decimal(n)[i] == '\t' by {
        text::law_digits_are_alphanumeric(n, 10, i);
    }
}

/// The names are in lower case.
proof fn lemma_names_are_lower()
    ensures
        headers::lower("content-type"@) == "content-type"@,
        headers::lower("content-length"@) == "content-length"@,
        headers::lower("content-disposition"@) == "content-disposition"@,
        headers::lower("cache-control"@) == "cache-control"@,
{
    assert(headers::lower("content-type"@) =~= "content-type"@) by {
        reveal_strlit("content-type");
    }
    lemma_content_length_is_lower();
    assert(headers::lower("content-disposition"@) =~= "content-disposition"@) by {
        reveal_strlit("content-disposition");
    }
    assert(headers::lower("cache-control"@) =~= "cache-control"@) by {
        reveal_strlit("cache-control");
    }
}

/// A response with a body says how many bytes are sent: the last header that is added with
/// a text, with bytes, or with a source of known length is the length, and read as a number
/// it is the number of bytes that go out, or the one that the source was said to have.
pub proof fn law_announced_length_is_sent<S>(
    before: HttpResponse<S>,
    after: HttpResponse<S>,
    built: BuiltBody<S>,
    text: String,
    bytes: Vec<u8>,
    source: S,
    len: u64,
)
    requires
        before.header_set() is Some,
        headers::has_room(before.header_set(), 1),
        after.sends(built),
        after.sets_text(before, text) || after.sets_binary(before, bytes) || after.sets_source(
            before,
            source,
            Some(len),
        ),
    ensures
        ({
            &&& after.header_set() matches Some(new)
            &&& new.drop_last() == before.header_set()->0
            &&& new.last().0 == "content-length"@
            &&& text::number_of(new.last().1, 10) == match built {
                BuiltBody::Full(sent) => bytes_buf::content(sent).len(),
                BuiltBody::IoRead { state, .. } => (state.body_len->0) as nat,
                BuiltBody::Stream(_) => 0,
            }
            &&& built is Full || built is IoRead
        }),
{
    let announced = match built {
        BuiltBody::Full(sent) => bytes_buf::content(sent).len(),
        BuiltBody::IoRead { state, .. } => (state.body_len->0) as nat,
        BuiltBody::Stream(_) => 0,
    };
    law_names_are_header_names();
    lemma_names_are_lower();
    lemma_decimal_is_value(announced);
    text::law_numbers_are_read_back(announced);
    let old = before.header_set()->0;
    assert(old.push(("content-length"@, text::decimal(announced))).drop_last() =~= old);
}

/// Values that responses are given here are headers' values.
proof fn lemma_values_are_header_values()
    ensures
        headers::is_header_value("application/json; charset=utf-8"@),
        headers::is_header_value("text/html; charset=utf-8"@),
        headers::is_header_value("application/problem+json"@),
        headers::is_header_value("no-store, no-cache, must-revalidate"@),
        headers::is_header_value("private, immutable, max-age=31536000"@),
{
    assert(headers::is_header_value("application/json; charset=utf-8"@)) by {
        reveal_strlit("application/json; charset=utf-8");
    }
    assert(headers::is_header_value("text/html; charset=utf-8"@)) by {
        reveal_strlit("text/html; charset=utf-8");
    }
    assert(headers::is_header_value("application/problem+json"@)) by {
        reveal_strlit("application/problem+json");
    }
    assert(headers::is_header_value("no-store, no-cache, must-revalidate"@)) by {
        reveal_strlit("no-store, no-cache, must-revalidate");
    }
    assert(headers::is_header_value("private, immutable, max-age=31536000"@)) by {
        reveal_strlit("private, immutable, max-age=31536000");
    }
}

/// A body of a type goes out with the type and its length, and nothing else; the type
/// comes first. A type that is no header's value spoils the response.
pub proof fn law_body_headers(content_type: Seq<char>, len: nat)
    ensures
        headers::is_header_value(content_type) ==> {
            &&& body_headers(content_type, len) matches Some(list)
            &&& list.len() == 2
            &&& list[0] == ("content-type"@, content_type)
            &&& list[1].0 == "content-length"@
            &&& text::number_of(list[1].1, 10) == len
        },
        !headers::is_header_value(content_type) ==> body_headers(content_type, len) is None,
{
    law_names_are_header_names();
    lemma_names_are_lower();
    lemma_decimal_is_value(len);
    text::law_numbers_are_read_back(len);
}

/// A JSON document goes out as one, with its length, and is not to be stored just if that
/// was asked for.
pub proof fn law_json_headers(inner: Seq<char>, no_cache: bool)
    ensures
        ({
            &&& json_headers(inner, no_cache) matches Some(list)
            &&& list[0] == ("content-type"@, "application/json; charset=utf-8"@)
            &&& list[1].0 == "content-length"@
            &&& text::number_of(list[1].1, 10) == vstd::utf8::encode_utf8(inner).len()
            &&& no_cache ==> list.len() == 3 && list[2] == (
                "cache-control"@,
                "no-store, no-cache, must-revalidate"@,
            )
            &&& !no_cache ==> list.len() == 2
        }),
{
    law_body_headers("application/json; charset=utf-8"@, text::byte_size(inner));
    law_names_are_header_names();
    lemma_names_are_lower();
    lemma_values_are_header_values();
}

/// A file to be saved goes out with its type, its name, and the length that it was said to
/// have; it may be kept, for it never changes.
pub proof fn law_download_headers(filename: Seq<char>, content_type: Seq<char>, len: nat)
    requires
        headers::is_header_value(content_type),
        headers::is_header_value(attachment(filename)),
    ensures
        ({
            &&& download_headers(filename, content_type, len) matches Some(list)
            &&& list.len() == 4
            &&& list[0] == ("content-type"@, content_type)
            &&& list[1] == ("content-disposition"@, attachment(filename))
            &&& list[2] == ("cache-control"@, "private, immutable, max-age=31536000"@)
            &&& list[3].0 == "content-length"@
            &&& text::number_of(list[3].1, 10) == len
        }),
{
    law_names_are_header_names();
    lemma_names_are_lower();
    lemma_values_are_header_values();
    lemma_decimal_is_value(len);
    text::law_numbers_are_read_back(len);
}

/// The name of a file stands between quotes. One without quotes stands there as it is, and
/// in any other only quotes are escaped.
pub proof fn law_attachment_names_the_file(filename: Seq<char>, more: Seq<char>)
    ensures
        attachment(filename) == "attachment; filename=\""@ + text::quotes_escaped(filename)
            + "\""@,
        (forall|i: int| 0 <= i < filename.len() ==> filename[i] != '"') ==> text::quotes_escaped(
            filename,
        ) == filename,
        text::quotes_escaped(filename.push('"') + more) == text::quotes_escaped(filename) + seq![
            '\\',
            '"',
        ] + text::quotes_escaped(more),
    decreases filename.len(),
{
    text::law_only_quotes_are_escaped(filename.push('"'), more, 'a');
    assert(filename.push('"').drop_last() =~= filename);
    if filename.len() > 0 {
        law_attachment_names_the_file(filename.drop_last(), more);
        if forall|i: int| 0 <= i < filename.len() ==> filename[i] != '"' {
            assert(forall|i: int|
                0 <= i < filename.drop_last().len() ==> filename.drop_last()[i] == filename[i]);
            assert(text::quotes_escaped(filename) =~= filename);
        }
    } else {
        assert(text::quotes_escaped(filename) =~= filename);
    }
}

/// What goes out with a response is what was added to it: nothing is taken away or changed,
/// and only an empty body without a length and an agreed web socket get more.
pub proof fn law_sent_headers<S>(response: HttpResponse<S>, list: Seq<(Seq<char>, Seq<char>)>)
    requires
        response.header_set() == Some(list),
    ensures
        !(response.spec_body() is Empty) && !(response.spec_body() is WebsocketUpgrade)
            ==> response.sent_headers() == Some(list),
        response.spec_body() is Empty ==> {
            &&& response.sent_headers() matches Some(sent)
            &&& response.has_length() ==> sent == list
            &&& !response.has_length() ==> sent == list.push(("content-length"@, "0"@))
        },
        response.spec_body() is WebsocketUpgrade ==> (response.sent_headers() matches Some(sent)
            ==> sent.len() == list.len() + 4 && sent.take(list.len() as int) == list),
{
    law_names_are_header_names();
    lemma_names_are_lower();
    reveal_strlit("0");
    if response.spec_body() is WebsocketUpgrade {
        if let Some(sent) = response.sent_headers() {
            assert(sent.take(list.len() as int) =~= list);
        }
    }
}

/// Whether a body is read and sent piece by piece.
pub open spec fn body_run(
    states: Seq<IoBody>,
    reads: Seq<Vec<u8>>,
    frames: Seq<Option<Vec<u8>>>,
) -> bool {
    &&& states.len() == reads.len() + 1
    &&& frames.len() == reads.len()
    &&& states[0].open
    &&& forall|k: int| 0 <= k < reads.len() ==> (#[trigger] states[k]).open
    &&& forall|k: int|
        0 <= k < reads.len() ==> body_takes_in(
            states[k],
            states[k + 1],
            #[trigger] reads[k],
            frames[k],
        )
}

/// What is sent of a body is what was read of it, piece for piece and in order, until a
/// read gives nothing: it is asked for more up to then, and not behind it.
pub proof fn law_body_is_sent_as_read(
    states: Seq<IoBody>,
    reads: Seq<Vec<u8>>,
    frames: Seq<Option<Vec<u8>>>,
)
    requires
        body_run(states, reads, frames),
    ensures
        forall|k: int|
            0 <= k < reads.len() ==> ((#[trigger] reads[k])@.len() > 0 ==> frames[k] == Some(
                reads[k],
            )),
        forall|k: int|
            0 <= k < reads.len() - 1 ==> (#[trigger] reads[k])@.len() > 0,
        reads.len() > 0 ==> (states.last().next_step() is End <==> reads.last()@.len() == 0),
        reads.len() > 0 ==> (frames.last() is None <==> reads.last()@.len() == 0),
        states.last().hint() == states[0].hint(),
        states[0].hint() == states[0].body_len,
        states.last().has_ended() <==> states.last().next_step() is End,
        states[0].next_step() matches BodyStep::Read(len) && len > 0,
    decreases reads.len(),
{
    assert forall|k: int| 0 <= k < reads.len() - 1 implies (#[trigger] reads[k])@.len() > 0 by {
        assert(states[k + 1].open);
    }
    if reads.len() > 0 {
        let n = reads.len() - 1;
        assert(reads[n] == reads.last());
        let earlier = states.drop_last();
        assert forall|k: int| 0 <= k < n implies body_takes_in(
            earlier[k],
            earlier[k + 1],
            #[trigger] reads.drop_last()[k],
            frames.drop_last()[k],
        ) by {
            assert(reads.drop_last()[k] == reads[k]);
        }
        law_body_is_sent_as_read(earlier, reads.drop_last(), frames.drop_last());
    }
}

/// The size of a response is the number of bytes that it holds and sends. One that holds
/// none has the size zero.
pub proof fn law_size_is_what_is_held<S>(response: HttpResponse<S>, built: BuiltBody<S>)
    requires
        response.sends(built),
    ensures
        response.spec_body() is Text || response.spec_body() is Binary ==> (
        built matches BuiltBody::Full(sent) && response.held() == bytes_buf::content(sent).len()),
        !(response.spec_body() is Text) && !(response.spec_body() is Binary) ==> response.held()
            == 0,
{
}

/// What is sent for a response is its body: a text as its bytes, bytes as they are, a stream
/// or a source as it is, and nothing for an empty one.
pub proof fn law_body_is_sent<S>(response: HttpResponse<S>, built: BuiltBody<S>)
    requires
        response.sends(built),
    ensures
        response.spec_body() matches HttpResponseBody::Text(text) ==> (
        built matches BuiltBody::Full(sent) && bytes_buf::content(sent)
            == vstd::utf8::encode_utf8(text@)),
        response.spec_body() matches HttpResponseBody::Binary(bytes) ==> (
        built matches BuiltBody::Full(sent) && bytes_buf::content(sent) == bytes@),
        response.spec_body() is Empty ==> (built matches BuiltBody::Full(sent)
            && bytes_buf::content(sent) == Seq::<u8>::empty()),
        response.spec_body() matches HttpResponseBody::Stream(stream) ==> built
            == BuiltBody::Stream(stream),
        response.spec_body() matches HttpResponseBody::IoRead { source, state } ==> built == (
        BuiltBody::IoRead { source, state }),
{
    if response.spec_body() is Empty {
        if let BuiltBody::Full(sent) = built {
            assert(bytes_buf::content(sent) =~= Seq::<u8>::empty());
        }
    }
}

/// A status is a number whose decimal form has three digits.
pub proof fn law_status_has_three_digits(code: u16)
    ensures
        is_status(code) <==> text::decimal(code as nat).len() == 3,
{
    reveal_with_fuel(text::digits, 5);
    let n = code as nat;
    assert(text::decimal(n).len() == if n < 10 {
        1nat
    } else if n < 100 {
        2
    } else if n < 1000 {
        3
    } else if n < 10000 {
        4
    } else {
        5
    });
}

/// A redirect names the place, and nothing else.
pub proof fn law_redirect_names_the_place(location: Seq<char>)
    ensures
        headers::is_header_value(location) ==> redirect_headers(location) == Some(
            seq![("location"@, location)],
        ),
        !headers::is_header_value(location) ==> redirect_headers(location) is None,
{
    law_names_are_header_names();
    assert(headers::lower("location"@) =~= "location"@) by {
        reveal_strlit("location");
    }
    if headers::is_header_value(location) {
        assert(redirect_headers(location)->0 =~= seq![("location"@, location)]);
    }
}

/// An XML text is sent as one: with its length, which is the number of its bytes, and then
/// its type, behind all that was added before.
pub proof fn law_xml_is_sent_as_xml<S>(
    before: HttpResponse<S>,
    after: HttpResponse<S>,
    body: String,
)
    requires
        before.header_set() is Some,
        headers::has_room(before.header_set(), 2),
        after.sets_xml(before, body),
    ensures
        ({
            let old = before.header_set()->0;
            &&& after.header_set() matches Some(new)
            &&& new.len() == old.len() + 2
            &&& new.take(old.len() as int) == old
            &&& new[old.len() as int].0 == "content-length"@
            &&& text::number_of(new[old.len() as int].1, 10) == vstd::utf8::encode_utf8(body@).len()
            &&& new.last() == ("content-type"@, "application/xml; charset=utf-8"@)
        }),
        after.spec_body() == HttpResponseBody::<S>::Text(body),
        after.spec_status() == before.spec_status(),
{
    let len = text::byte_size(body@);
    law_names_are_header_names();
    lemma_names_are_lower();
    lemma_decimal_is_value(len);
    text::law_numbers_are_read_back(len);
    assert(headers::is_header_value("application/xml; charset=utf-8"@)) by {
        reveal_strlit("application/xml; charset=utf-8");
    }
    let old = before.header_set()->0;
    let new = after.header_set()->0;
    assert(new.take(old.len() as int) =~= old);
}

/// A response is sent unless something was added to it that is no header, and then with its
/// status, its body and all its headers.
pub proof fn law_response_is_sent<S>(
    response: HttpResponse<S>,
    list: Seq<(Seq<char>, Seq<char>)>,
    built: Option<BuiltResponse<S>>,
)
    requires
        response.becomes(built),
        headers::has_room(response.header_set(), 4),
    ensures
        response.header_set() is None ==> built is None,
        response.header_set() == Some(list) && !(response.spec_body() is WebsocketUpgrade) ==> {
            &&& built matches Some(built)
            &&& built.status_code() == response.spec_status().spec_code()
            &&& response.sends(built.body)
            &&& built.header_set() matches Some(sent)
            &&& list.is_prefix_of(sent)
            &&& !(response.spec_body() is Empty) ==> sent == list
        },
{
    if response.header_set() == Some(list) {
        law_sent_headers(response, list);
        if let Some(sent) = response.sent_headers() {
            assert(list =~= sent.take(list.len() as int));
        }
    }
}

} // verus!
