use spur::asynchttp::httpstr::{copy, eq, to_str};
use inlinable_string::InlinableString;
use spur::asynchttp::response::{Code, Response, Type};
use spur::asynchttp::request::{slice_equal, PreRequest};
use spur::miohttp::parser::{RawHeader, RawRequest};

fn head(code: &str, typ: &str, len: usize) -> String {
    format!(
        "HTTP/1.1 \r\n{}\r\nDate: Thu, 20 Dec 2001 12:04:30 GMT\r\nContent-Type: \r\n{}\r\nConnection: keep-alive\r\nContent-Length: \r\n{}\r\n\r\n",
        code, typ, len
    )
}

#[test]
fn to_str_reads_up_to_first_zero() {
    let mut field = [0u8; 16];
    copy(b"GET", &mut field);
    assert_eq!(to_str(&field), "GET");
}

#[test]
fn to_str_without_zero_reads_all() {
    assert_eq!(to_str(b"abcd"), "abcd");
    assert_eq!(to_str(b"abc\0\0"), "abc");
    assert_eq!(to_str(b""), "");
}

#[test]
fn to_str_of_invalid_bytes() {
    assert_eq!(to_str(&[0xff, 0xfe, 0x41, 0x42, 0]), "<Invalid bytes>");
    assert_eq!(to_str(&[0x41, 0, 0xff]), "<Invalid bytes>");
    assert_eq!(to_str(&[0xff; 40]), "<Invalid bytes>");
}

#[test]
fn eq_is_symmetric_on_samples() {
    let a = b"abc\0def";
    let b = b"abc\0xyz";
    assert_eq!(eq(a, b), eq(b, a));
    assert!(eq(a, a));
    assert_eq!(eq(b"ab", b"ac"), eq(b"ac", b"ab"));
}

#[test]
fn codes_and_types_text() {
    assert_eq!(Code::Code200.to_str(), "200 OK");
    assert_eq!(Code::Code400.to_str(), "400 Bad Request");
    assert_eq!(Code::Code404.to_str(), "404 Not Found");
    assert_eq!(Code::Code500.to_str(), "500 Internal Server Error");
    assert_eq!(Type::TextHtml.to_str(), "text/html; charset=utf-8");
    assert_eq!(Type::TextPlain.to_str(), "text/plain");
    assert_eq!(Type::ImageJpeg.to_str(), "image/jpeg");
    assert_eq!(Type::ImagePng.to_str(), "image/png");
}

#[test]
fn type_from_path_extension() {
    assert_eq!(Type::create_from_path("./static/x.png"), Type::ImagePng);
    assert_eq!(Type::create_from_path("a/b.jpg"), Type::ImageJpeg);
    assert_eq!(Type::create_from_path("notes.txt"), Type::TextPlain);
    assert_eq!(Type::create_from_path("/index.html"), Type::TextHtml);
    assert_eq!(Type::create_from_path("archive.tar.gz"), Type::TextHtml);
    assert_eq!(Type::create_from_path("README"), Type::TextHtml);
}

#[test]
fn create_response_bytes() {
    let r = Response::create(Code::Code200, Type::TextPlain, InlinableString::from("hi"));
    let expected = head("200 OK", "text/plain", 2) + "hi\r\n";
    assert_eq!(r.into_bytes(), expected.into_bytes());
}

#[test]
fn content_length_counts_bytes_not_chars() {
    let r = Response::create(Code::Code200, Type::TextHtml, InlinableString::from("żó"));
    let expected = head("200 OK", "text/html; charset=utf-8", 4) + "żó\r\n";
    assert_eq!(r.into_bytes(), expected.into_bytes());
}

#[test]
fn create_500_and_400() {
    let r = Response::create_500();
    let expected = head("500 Internal Server Error", "text/html; charset=utf-8", 25) + "500 Internal Server Error\r\n";
    assert_eq!(r.into_bytes(), expected.into_bytes());
    let r = Response::create_400();
    let expected = head("400 Bad Request", "text/html; charset=utf-8", 15) + "400 Bad Request\r\n";
    assert_eq!(r.into_bytes(), expected.into_bytes());
}

fn raw(method: Option<&str>, headers: Vec<(&str, &[u8])>) -> RawRequest {
    RawRequest {
        method: method.map(String::from),
        path: Some("/index.html".to_string()),
        version: Some(1),
        headers: headers
            .into_iter()
            .map(|(n, v)| RawHeader { name: n.to_string(), value: v.to_vec() })
            .collect(),
    }
}

#[test]
fn pre_request_needs_method() {
    assert!(PreRequest::new(raw(None, vec![])).is_err());
    assert!(PreRequest::new(raw(Some("GET"), vec![])).is_ok());
}

#[test]
fn header_lookup_uses_whole_name_field() {
    let long_name = "X-Header-Name-Of-32-Characters!!";
    assert_eq!(long_name.len(), 32);
    let pre = PreRequest::new(raw(Some("GET"), vec![("Connection", b"keep-alive"), (long_name, b"yes")])).unwrap();
    let req = pre.bind(7);
    // a name shorter than the field is not found under its own bytes
    assert!(!req.is_header_set("Connection", "keep-alive"));
    assert!(req.is_header_set(long_name, " yes "));
    assert!(!req.is_header_set(long_name, "no"));
}

#[test]
fn later_header_replaces_earlier() {
    let name = "Y-Header-Name-Of-32-Characters!!";
    let pre = PreRequest::new(raw(Some("POST"), vec![(name, b"first"), (name, b"second")])).unwrap();
    let req = pre.bind(1);
    assert!(req.is_header_set(name, "second"));
    assert!(!req.is_header_set(name, "first"));
}

#[test]
fn request_answered_once() {
    let mut req = PreRequest::new(raw(Some("GET"), vec![])).unwrap().bind(42);
    let (token, fallback) = req.drop_reply().unwrap();
    assert_eq!(token, 42);
    assert_eq!(fallback.into_bytes(), Response::create_500().into_bytes());
    let resp = Response::create(Code::Code200, Type::TextHtml, InlinableString::from("ok"));
    let (t, sent) = req.send(resp);
    assert_eq!(t, 42);
    assert_eq!(sent.into_bytes(), Response::create(Code::Code200, Type::TextHtml, InlinableString::from("ok")).into_bytes());
    assert!(req.drop_reply().is_none());
}

#[test]
fn request_fields_are_padded() {
    let req = PreRequest::new(raw(Some("GET"), vec![])).unwrap().bind(3);
    assert_eq!(to_str(&req.method), "GET");
    assert_eq!(to_str(&req.path), "/index.html");
    assert_eq!(req.version, 1);
}

#[test]
fn slices_compare_by_content() {
    assert!(slice_equal(b"abc", b"abc"));
    assert!(!slice_equal(b"abc", b"abd"));
    assert!(!slice_equal(b"ab", b"abc"));
}
