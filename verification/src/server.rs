//! The application's routing: which requests crash on purpose, which go
//! to the form handler, which are served from the `./static` directory,
//! and what answer each outcome of reading a file gives.

use vstd::prelude::*;
use vstd::utf8::encode_utf8;
use crate::asynchttp::response::{Response, Code, Type, head_text, response_text, crlf, inlinable_from_str, type_for_extension, path_extension};
use crate::text::{trim, trimmed, decimal, usize_to_decimal, str_equal, is_digit, numeral_value, lemma_decimal_reads_back};

verus! {

/// Why the file service gave no content.
#[derive(Debug, Clone, Copy, PartialEq, Eq, Structural)]
pub enum FileError {
    /// There is no file at the path.
    NotFound,
    /// The file is larger than a static file may be.
    TooBig,
    /// Any other failure of the file system.
    Other,
}

/// What the file service answers: the file's bytes, or why there are none.
pub type FilesData = Result<Vec<u8>, FileError>;

/// The largest static file, in bytes, that is served.
pub const MAX_STATIC_FILE: u64 = 1_000_000;

/// Where a request goes.
#[derive(Debug, Clone, Copy, PartialEq, Eq, Structural)]
pub enum Route {
    /// `/crash`: the worker fails on purpose.
    Crash,
    /// `/post_action`: the form handler.
    Post,
    /// Anything else: a static file.
    Static,
}

/// The route of a path, by its text without surrounding white space.
pub open spec fn route_of(path: Seq<char>) -> Route {
    if trimmed(path) == "/crash"@ {
        Route::Crash
    } else if trimmed(path) == "/post_action"@ {
        Route::Post
    } else {
        Route::Static
    }
}

/// The requested static path: `/` asks for `/index.html`.
pub open spec fn requested_path(path: Seq<char>) -> Seq<char> {
    if trimmed(path) == "/"@ {
        "/index.html"@
    } else {
        trimmed(path)
    }
}

/// Chooses where the request with path `path` goes.
pub fn route(path: &str) -> (r: Route)
    ensures
        r == route_of(path@),
{
    let t = trim(path);
    if str_equal(t, "/crash") {
        Route::Crash
    } else if str_equal(t, "/post_action") {
        Route::Post
    } else {
        Route::Static
    }
}

/// The path on disk and the path requested, for a static file.
pub fn get_static_path(path: &str) -> (r: (String, String))
    ensures
        r.0@ == "./static"@ + requested_path(path@),
        r.1@ == requested_path(path@),
{
    let t = trim(path);
    let path_requested = if str_equal(t, "/") { "/index.html" } else { t };
    let path_disk = String::from_str("./static").concat(path_requested);
    (path_disk, String::from_str(path_requested))
}

/// The path on disk for a request handled by a worker: `./static`
/// followed by the path without surrounding white space.
pub fn render_path(path: &str) -> (r: String)
    ensures
        r@ == "./static"@ + trimmed(path@),
{
    String::from_str("./static").concat(trim(path))
}

/// Whether a file of `len` bytes may be served.
pub fn file_size_allowed(len: u64) -> (r: Result<(), FileError>)
    ensures
        r is Ok <==> len <= MAX_STATIC_FILE,
        r matches Err(e) ==> e == FileError::TooBig,
{
    if len > MAX_STATIC_FILE {
        Err(FileError::TooBig)
    } else {
        Ok(())
    }
}

/// The bytes of a response with a binary body: the head for a body of
/// that length, the body, and `\r\n`.
pub fn create_from_buf(code: Code, typ: Type, buffer: Vec<u8>) -> (r: Vec<u8>)
    ensures
        r@ == encode_utf8(head_text(code, typ, buffer@.len())) + buffer@ + encode_utf8(crlf()),
{
    let mut buffer = buffer;
    let ghost body = buffer@;
    let mut out = Response::create_headers(code, typ, buffer.len()).into_bytes();
    out.append(&mut buffer);
    let ghost before = out@;
    out.extend_from_slice("\r\n".as_bytes());
    assert(out@ =~= before + encode_utf8(crlf()));
    out
}

/// The answer to a static file request, for what the file service gave:
/// the file with the type its extension selects, a 404 page when there is
/// no file, and no answer for any other failure or when the service did
/// not answer (the request then gets its default answer).
pub fn static_response(path_disk: &str, data: Option<FilesData>) -> (r: Option<Vec<u8>>)
    ensures
        match data {
            Some(Ok(buffer)) => r matches Some(b) && b@ == encode_utf8(
                head_text(Code::Code200, type_for_extension(path_extension(path_disk@)), buffer@.len()),
            ) + buffer@ + encode_utf8(crlf()),
            Some(Err(FileError::NotFound)) => r matches Some(b) && b@ == encode_utf8(
                response_text(Code::Code404, Type::TextHtml, "Not found"@),
            ),
            _ => r is None,
        },
{
    match data {
        Some(Ok(buffer)) => {
            let content_type = Type::create_from_path(path_disk);
            Some(create_from_buf(Code::Code200, content_type, buffer))
        },
        Some(Err(FileError::NotFound)) => {
            let response = Response::create(Code::Code404, Type::TextHtml, inlinable_from_str("Not found"));
            Some(response.into_bytes())
        },
        _ => None,
    }
}

/// The page the form handler shows for a body of `n` bytes.
pub open spec fn post_received_text(n: nat) -> Seq<char> {
    "odbieram dane postem: "@ + decimal(n)
}

/// The form handler's page for a POST body of `n` bytes reports `n`
/// itself: after "odbieram dane postem: " come only digits, and they read
/// as `n`.
pub proof fn law_post_page_reports_length(n: nat)
    ensures
        post_received_text(n).len() > 22,
        post_received_text(n).take(22) == "odbieram dane postem: "@,
        forall|i: int| 22 <= i < post_received_text(n).len() ==> is_digit(#[trigger] post_received_text(n)[i]),
        numeral_value(post_received_text(n).skip(22)) == n,
{
    reveal_strlit("odbieram dane postem: ");
    lemma_decimal_reads_back(n);
    let t = post_received_text(n);
    assert(t.take(22) =~= "odbieram dane postem: "@);
    assert(t.skip(22) =~= decimal(n));
    assert forall|i: int| 22 <= i < t.len() implies is_digit(#[trigger] t[i]) by {
        assert(t[i] == decimal(n)[i - 22]);
    }
}

/// The page the form handler shows for a request that is not a POST.
pub open spec fn post_by_get_text() -> Seq<char> {
    "postownie: żądanie wysłane getem"@
}

/// The answer of the form handler: for a POST, a page that tells how many
/// bytes came, or no answer when the body could not be read; for any
/// other method, a page that says the form was sent with GET.
pub fn post_response(is_post: bool, data: Option<Vec<u8>>) -> (r: Option<Response>)
    ensures
        is_post ==> match data {
            Some(d) => r matches Some(resp) && resp@ == response_text(Code::Code200, Type::TextHtml, post_received_text(d@.len())),
            None => r is None,
        },
        !is_post ==> (r matches Some(resp) && resp@ == response_text(Code::Code200, Type::TextHtml, post_by_get_text())),
{
    if is_post {
        match data {
            Some(d) => {
                let mes = String::from_str("odbieram dane postem: ").concat(usize_to_decimal(d.len()).as_str());
                Some(Response::create(Code::Code200, Type::TextHtml, inlinable_from_str(mes.as_str())))
            },
            None => None,
        }
    } else {
        Some(Response::create(Code::Code200, Type::TextHtml, inlinable_from_str("postownie: żądanie wysłane getem")))
    }
}

} // verus!
