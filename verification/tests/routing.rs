use inlinable_string::InlinableString;
use spur::asynchttp::response::{Code, Response, Type};
use spur::server::{
    create_from_buf, file_size_allowed, get_static_path, post_response, render_path, route, static_response, FileError,
    Route,
};

fn head(code: &str, typ: &str, len: usize) -> String {
    format!(
        "HTTP/1.1 \r\n{}\r\nDate: Thu, 20 Dec 2001 12:04:30 GMT\r\nContent-Type: \r\n{}\r\nConnection: keep-alive\r\nContent-Length: \r\n{}\r\n\r\n",
        code, typ, len
    )
}

#[test]
fn routes_by_trimmed_path() {
    assert_eq!(route("/crash"), Route::Crash);
    assert_eq!(route("  /crash\n"), Route::Crash);
    assert_eq!(route("/post_action"), Route::Post);
    assert_eq!(route("/post_action/x"), Route::Static);
    assert_eq!(route("/"), Route::Static);
}

#[test]
fn root_asks_for_index() {
    assert_eq!(get_static_path("/"), ("./static/index.html".to_string(), "/index.html".to_string()));
    assert_eq!(get_static_path(" / "), ("./static/index.html".to_string(), "/index.html".to_string()));
    assert_eq!(get_static_path("/img/a.png"), ("./static/img/a.png".to_string(), "/img/a.png".to_string()));
}

#[test]
fn worker_path_has_no_index_rule() {
    assert_eq!(render_path("/"), "./static/");
    assert_eq!(render_path(" /a.txt "), "./static/a.txt");
}

#[test]
fn size_limit() {
    assert_eq!(file_size_allowed(1_000_000), Ok(()));
    assert_eq!(file_size_allowed(0), Ok(()));
    assert_eq!(file_size_allowed(1_000_001), Err(FileError::TooBig));
}

#[test]
fn binary_body_response() {
    let body = vec![0u8, 159, 146, 150];
    let mut expected = head("200 OK", "image/png", 4).into_bytes();
    expected.extend_from_slice(&body);
    expected.extend_from_slice(b"\r\n");
    assert_eq!(create_from_buf(Code::Code200, Type::ImagePng, body), expected);
}

#[test]
fn static_answers() {
    let found = static_response("./static/a.jpg", Some(Ok(b"JPG".to_vec()))).unwrap();
    let mut expected = head("200 OK", "image/jpeg", 3).into_bytes();
    expected.extend_from_slice(b"JPG\r\n");
    assert_eq!(found, expected);

    let missing = static_response("./static/none.html", Some(Err(FileError::NotFound))).unwrap();
    let expected = head("404 Not Found", "text/html; charset=utf-8", 9) + "Not found\r\n";
    assert_eq!(missing, expected.into_bytes());

    assert!(static_response("./static/big.html", Some(Err(FileError::TooBig))).is_none());
    assert!(static_response("./static/x.html", Some(Err(FileError::Other))).is_none());
    assert!(static_response("./static/x.html", None).is_none());
}

#[test]
fn post_answers() {
    let r = post_response(true, Some(vec![1, 2, 3])).unwrap();
    let expected = Response::create(Code::Code200, Type::TextHtml, InlinableString::from("odbieram dane postem: 3"));
    assert_eq!(r.into_bytes(), expected.into_bytes());

    assert!(post_response(true, None).is_none());

    let r = post_response(false, None).unwrap();
    let expected = head("200 OK", "text/html; charset=utf-8", "postownie: żądanie wysłane getem".len())
        + "postownie: żądanie wysłane getem\r\n";
    assert_eq!(r.into_bytes(), expected.into_bytes());
}
