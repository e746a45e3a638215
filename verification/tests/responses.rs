use blob_store::http_response::{
    BodyStep, BuiltBody, DownloadResponse, HtmlResponse, HttpResponse, HttpResponseBody, IoBody,
    JsonProblemResponse, JsonResponse, Resource, StatusCode, BODY_CHUNK_LEN,
};

fn status(code: u16) -> StatusCode {
    StatusCode::from_u16(code).unwrap()
}

fn ok() -> HttpResponse<u8> {
    HttpResponse::new(StatusCode::ok())
}

fn value(response: &HttpResponse<u8>, name: &str) -> Vec<String> {
    let headers = response.headers().unwrap();
    headers.into_iter().filter(|h| h.0 == name).map(|h| h.1).collect()
}

fn text_body(response: &HttpResponse<u8>) -> &str {
    match response.body() {
        HttpResponseBody::Text(text) => text,
        other => panic!("{other:?}"),
    }
}

#[test]
fn statuses_have_three_digits() {
    assert!(StatusCode::from_u16(99).is_none());
    assert!(StatusCode::from_u16(1000).is_none());
    assert_eq!(status(404).as_u16(), 404);
    assert_eq!(status(404).reason(), "Not Found");
    assert_eq!(status(599).reason(), "");
    assert_eq!(ok().with_status_code(status(201)).status(), status(201));
}

#[test]
fn headers_are_added_under_their_names() {
    let response = ok()
        .with_content_type("text/plain")
        .with_content_range(String::from("bytes 0-1/2"))
        .with_accept_ranges()
        .with_etag(String::from("\"1\""))
        .with_etag_opt(Some(String::from("\"2\"")))
        .with_etag_opt(None)
        .with_schedule_tag_opt(Some(17))
        .with_schedule_tag_opt(None)
        .with_last_modified(String::from("today"))
        .with_lock_token("urn:x")
        .with_location("/there")
        .with_header("X-Any", "thing");
    assert_eq!(value(&response, "content-type"), ["text/plain"]);
    assert_eq!(value(&response, "content-range"), ["bytes 0-1/2"]);
    assert_eq!(value(&response, "accept-ranges"), ["bytes"]);
    assert_eq!(value(&response, "etag"), ["\"1\"", "\"2\""]);
    assert_eq!(value(&response, "schedule-tag"), ["\"17\""]);
    assert_eq!(value(&response, "last-modified"), ["today"]);
    assert_eq!(value(&response, "lock-token"), ["<urn:x>"]);
    assert_eq!(value(&response, "location"), ["/there"]);
    assert_eq!(value(&response, "x-any"), ["thing"]);
}

#[test]
fn caches_are_told_what_they_may() {
    let control = |response: HttpResponse<u8>| value(&response, "cache-control").join("|");
    assert_eq!(control(ok().with_cache_control("private")), "private");
    assert_eq!(control(ok().with_no_store()), "no-store, no-cache, must-revalidate");
    assert_eq!(control(ok().with_no_cache()), "no-cache");
    assert_eq!(control(ok().with_immutable_cache()), "public, max-age=31536000, immutable");
}

#[test]
fn any_origin_may_be_allowed() {
    let response = ok().with_cors_unrestricted();
    assert_eq!(value(&response, "access-control-allow-origin"), ["*"]);
    assert_eq!(
        value(&response, "access-control-allow-headers"),
        ["Authorization, Content-Type, Accept, X-Requested-With"]
    );
    assert_eq!(
        value(&response, "access-control-allow-methods"),
        ["POST, GET, PATCH, PUT, DELETE, HEAD, OPTIONS"]
    );
}

#[test]
fn bodies_carry_their_length() {
    let response = ok().with_text_body(String::from("\u{e9}"));
    assert_eq!(response.size(), 2);
    assert_eq!(value(&response, "content-length"), ["2"]);
    let response = ok().with_binary_body(vec![1, 2, 3]);
    assert_eq!(response.size(), 3);
    assert_eq!(value(&response, "content-length"), ["3"]);
    match response.build().body {
        BuiltBody::Full(bytes) => assert_eq!(&bytes[..], [1, 2, 3]),
        other => panic!("{other:?}"),
    }
    let response = ok().with_xml_body(String::from("<a/>"));
    assert_eq!(value(&response, "content-type"), ["application/xml; charset=utf-8"]);
    assert_eq!(value(&response, "content-length"), ["4"]);
    assert_eq!(ok().size(), 0);
}

#[test]
fn empty_bodies_get_a_length() {
    let built = ok().build();
    let headers = built.builder.headers_ref().unwrap();
    assert_eq!(headers.get("content-length").unwrap(), "0");
    let built = ok().with_content_length(7).build();
    let headers = built.builder.headers_ref().unwrap();
    assert_eq!(headers.get_all("content-length").iter().count(), 1);
    assert_eq!(headers.get("content-length").unwrap(), "7");
    assert!(matches!(built.body, BuiltBody::Full(bytes) if bytes.is_empty()));
}

#[test]
fn web_sockets_are_agreed_upon() {
    let response = ok().with_status_code(status(101)).with_websocket_upgrade(String::from("key"));
    assert_eq!(response.size(), 0);
    let built = response.build();
    let headers = built.builder.headers_ref().unwrap();
    assert_eq!(headers.get("connection").unwrap(), "upgrade");
    assert_eq!(headers.get("upgrade").unwrap(), "websocket");
    assert_eq!(headers.get("sec-websocket-accept").unwrap(), "key");
    assert_eq!(headers.get("sec-websocket-protocol").unwrap(), "jmap");
    assert!(
        matches!(built.body, BuiltBody::Full(bytes) if &bytes[..] == b"Switching to WebSocket protocol")
    );
}

#[test]
fn spoilt_responses_are_not_built() {
    assert!(ok().try_build().is_some());
    assert!(ok().with_header("X-Any", "line\nbreak").try_build().is_none());
    assert!(ok().with_header("no name", "value").try_build().is_none());
    let response = ok().with_header("X-Any", "\u{7f}");
    assert!(response.headers().is_none());
    assert!(ok().with_header("X-Any", "tab\tand \u{e9}").try_build().is_some());
}

#[test]
fn sources_are_read_while_sent() {
    let response = ok().with_io_read_body(9, Some(70_000));
    assert_eq!(value(&response, "content-length"), ["70000"]);
    match response.build().body {
        BuiltBody::IoRead { source, state } => {
            assert_eq!(source, 9);
            assert_eq!(state.size_hint(), Some(70_000));
        }
        other => panic!("{other:?}"),
    }
    assert!(value(&ok().with_io_read_body(9, None), "content-length").is_empty());
    assert!(matches!(ok().with_stream_body(4).build().body, BuiltBody::Stream(4)));
    let mut body = IoBody::new(None);
    assert_eq!(body.poll_frame(), BodyStep::Read(BODY_CHUNK_LEN));
    assert_eq!(body.frame_read(vec![1]), Some(vec![1]));
    assert!(!body.is_end_stream());
    assert_eq!(body.frame_read(Vec::new()), None);
    assert!(body.is_end_stream());
    assert_eq!(body.poll_frame(), BodyStep::End);
}

#[test]
fn redirects_name_the_place() {
    let response: HttpResponse<u8> = HttpResponse::redirect(String::from("/x"));
    assert_eq!(response.status().as_u16(), 302);
    assert_eq!(value(&response, "location"), ["/x"]);
}

#[test]
fn json_is_answered() {
    let json = JsonResponse { status: status(200), inner: String::from("{}"), no_cache: true };
    let response = json.into_http_response::<u8>();
    assert_eq!(text_body(&response), "{}");
    assert_eq!(value(&response, "content-type"), ["application/json; charset=utf-8"]);
    assert_eq!(value(&response, "cache-control"), ["no-store, no-cache, must-revalidate"]);
    let json = JsonResponse { status: status(200), inner: String::from("{}"), no_cache: false };
    assert!(value(&json.into_http_response(), "cache-control").is_empty());
}

#[test]
fn downloads_are_attachments() {
    let download = DownloadResponse {
        filename: String::from("a \"b\".txt"),
        content_type: String::from("text/plain"),
        blob: 3u8,
        content_length: 12,
    };
    let response = download.into_http_response();
    assert_eq!(value(&response, "content-type"), ["text/plain"]);
    assert_eq!(
        value(&response, "content-disposition"),
        ["attachment; filename=\"a \\\"b\\\".txt\""]
    );
    assert_eq!(value(&response, "cache-control"), ["private, immutable, max-age=31536000"]);
    assert_eq!(value(&response, "content-length"), ["12"]);
}

#[test]
fn pages_and_resources_are_answered() {
    let page = HtmlResponse { status: status(418), body: String::from("<p>") };
    let response = page.into_http_response::<u8>();
    assert_eq!(response.status().as_u16(), 418);
    assert_eq!(value(&response, "content-type"), ["text/html; charset=utf-8"]);
    assert_eq!(text_body(&response), "<p>");
    let resource = Resource { content_type: String::from("image/png"), contents: vec![1, 2] };
    let response = resource.into_http_response::<u8>();
    assert_eq!(value(&response, "content-type"), ["image/png"]);
    assert_eq!(value(&response, "content-length"), ["2"]);
}

#[test]
fn problems_are_described() {
    let response = JsonProblemResponse(status(404)).into_http_response::<u8>();
    let expected =
        "{\"detail\":\"Not Found\",\"status\":404,\"title\":\"Not Found\",\"type\":\"about:blank\"}";
    assert_eq!(text_body(&response), expected);
    assert_eq!(value(&response, "content-type"), ["application/problem+json"]);
    assert_eq!(value(&response, "content-length"), [expected.len().to_string()]);
    let response = JsonProblemResponse(status(599)).into_http_response::<u8>();
    assert!(text_body(&response).contains("\"title\":\"\""));
}

#[test]
fn built_responses_carry_their_status() {
    let code = |response: HttpResponse<u8>| {
        let built = response.try_build().unwrap();
        built.builder.body(()).unwrap().status().as_u16()
    };
    assert_eq!(code(ok()), 200);
    assert_eq!(code(HttpResponse::new(status(404))), 404);
    assert_eq!(code(ok().with_status_code(status(201)).with_etag(String::from("1"))), 201);
    assert_eq!(code(HttpResponse::redirect(String::from("/x"))), 302);
    assert_eq!(code(JsonProblemResponse(status(403)).into_http_response()), 403);
    let built = ok().with_content_length(10).build();
    let response = built.builder.body(()).unwrap();
    assert_eq!(response.status().as_u16(), 200);
    assert_eq!(response.headers().get_all("content-length").iter().count(), 1);
    assert_eq!(response.headers()["content-length"], "10");
    let built = ok().build();
    let response = built.builder.body(()).unwrap();
    assert_eq!(response.headers().get_all("content-length").iter().count(), 1);
    assert_eq!(response.headers()["content-length"], "0");
}
