//! HTTP responses whose text is held in an `inlinable_string::InlinableString`.
//!
//! Every line of the head, and the body, ends with `\r\n`; the status code
//! and the content type stand on lines of their own after
//! `HTTP/1.1 ` and `Content-Type: `.

use vstd::prelude::*;
use vstd::utf8::encode_utf8;
use inlinable_string::InlinableString;
use inlinable_string::StringExt;
use crate::text::{decimal, usize_to_decimal, is_digit, numeral_value, lemma_decimal_reads_back};

verus! {

#[verifier::external_type_specification]
#[verifier::external_body]
pub struct ExInlinableString(InlinableString);

/// The characters that an `InlinableString` holds.
pub uninterp spec fn inlinable_text(s: InlinableString) -> Seq<char>;

/// Calls `StringExt::new` of `InlinableString`: an empty string.
#[verifier::external_body]
fn inlinable_new() -> (s: InlinableString)
    ensures
        inlinable_text(s) == Seq::<char>::empty(),
{
    <InlinableString as StringExt>::new()
}

/// Calls `From<&str>` of `InlinableString`: a string holding the characters of `t`.
#[verifier::external_body]
pub(crate) fn inlinable_from_str(t: &str) -> (s: InlinableString)
    ensures
        inlinable_text(s) == t@,
{
    InlinableString::from(t)
}

/// Calls `StringExt::push_str`: appends the characters of `t`.
#[verifier::external_body]
fn inlinable_push_str(s: &mut InlinableString, t: &str)
    ensures
        inlinable_text(*final(s)) == inlinable_text(*old(s)) + t@,
{
    s.push_str(t)
}

/// Calls `AsRef<str>` of `InlinableString`: the characters it holds, as a `&str`.
#[verifier::external_body]
fn inlinable_as_str(s: &InlinableString) -> (t: &str)
    ensures
        t@ == inlinable_text(*s),
{
    s.as_ref()
}

/// Calls `StringExt::len`: the length in bytes of the UTF-8 encoding.
#[verifier::external_body]
fn inlinable_len(s: &InlinableString) -> (n: usize)
    ensures
        n as nat == encode_utf8(inlinable_text(*s)).len(),
{
    StringExt::len(s)
}

/// Calls `StringExt::into_bytes`: the UTF-8 encoding of the characters held.
#[verifier::external_body]
fn inlinable_into_bytes(s: InlinableString) -> (b: Vec<u8>)
    ensures
        b@ == encode_utf8(inlinable_text(s)),
{
    StringExt::into_bytes(s)
}

/// HTTP status codes.
#[derive(Debug, Clone, Copy, PartialEq, Eq, Structural)]
pub enum Code {
    Code200,
    Code400,
    Code404,
    Code500,
}

/// The status line text of a code.
pub open spec fn code_text(code: Code) -> Seq<char> {
    match code {
        Code::Code200 => "200 OK"@,
        Code::Code400 => "400 Bad Request"@,
        Code::Code404 => "404 Not Found"@,
        Code::Code500 => "500 Internal Server Error"@,
    }
}

impl Code {
    pub fn to_str(&self) -> (r: &str)
        ensures
            r@ == code_text(*self),
    {
        match *self {
            Code::Code200 => "200 OK",
            Code::Code400 => "400 Bad Request",
            Code::Code404 => "404 Not Found",
            Code::Code500 => "500 Internal Server Error",
        }
    }
}

/// Content types.
#[derive(Debug, Clone, Copy, PartialEq, Eq, Structural)]
pub enum Type {
    TextHtml,
    TextPlain,
    ImageJpeg,
    ImagePng,
}

/// The `Content-Type` value of a type.
pub open spec fn type_text(typ: Type) -> Seq<char> {
    match typ {
        Type::TextHtml => "text/html; charset=utf-8"@,
        Type::TextPlain => "text/plain"@,
        Type::ImageJpeg => "image/jpeg"@,
        Type::ImagePng => "image/png"@,
    }
}

/// What `std::path::Path::extension` gives for a path, as text: the part
/// of the file name after its last dot, if it has one that does not start it.
pub uninterp spec fn path_extension(path: Seq<char>) -> Option<Seq<char>>;

/// Calls `std::path::Path::extension` on `path` and reads the extension as
/// UTF-8 text. What the extension of a given path is, is named, not stated.
#[verifier::external_body]
fn extension_of(path: &str) -> (r: Option<String>)
    ensures
        r matches Some(e) ==> path_extension(path@) == Some(e@),
        r is None ==> path_extension(path@) is None,
{
    match std::path::Path::new(path).extension() {
        Some(e) => e.to_str().map(String::from),
        None => None,
    }
}

/// The content type that a file extension selects.
pub open spec fn type_for_extension(ext: Option<Seq<char>>) -> Type {
    match ext {
        Some(e) => if e == "html"@ {
            Type::TextHtml
        } else if e == "txt"@ {
            Type::TextPlain
        } else if e == "jpg"@ {
            Type::ImageJpeg
        } else if e == "png"@ {
            Type::ImagePng
        } else {
            Type::TextHtml
        },
        None => Type::TextHtml,
    }
}

impl Type {
    pub fn to_str(&self) -> (r: &str)
        ensures
            r@ == type_text(*self),
    {
        match *self {
            Type::TextHtml => "text/html; charset=utf-8",
            Type::TextPlain => "text/plain",
            Type::ImageJpeg => "image/jpeg",
            Type::ImagePng => "image/png",
        }
    }

    /// The content type for a file extension: `html`, `txt`, `jpg` and
    /// `png` select their types, anything else, or no extension, HTML.
    pub fn from_extension(ext: Option<&str>) -> (r: Type)
        ensures
            r == type_for_extension(match ext { Some(e) => Some(e@), None => None }),
    {
        match ext {
            Some(e) => {
                if crate::text::str_equal(e, "html") {
                    Type::TextHtml
                } else if crate::text::str_equal(e, "txt") {
                    Type::TextPlain
                } else if crate::text::str_equal(e, "jpg") {
                    Type::ImageJpeg
                } else if crate::text::str_equal(e, "png") {
                    Type::ImagePng
                } else {
                    Type::TextHtml
                }
            },
            None => Type::TextHtml,
        }
    }

    /// The content type of the file at `path`, by its extension.
    pub fn create_from_path(path: &str) -> (r: Type)
        ensures
            r == type_for_extension(path_extension(path@)),
    {
        let ext = extension_of(path);
        match ext {
            Some(e) => Type::from_extension(Some(e.as_str())),
            None => Type::from_extension(None),
        }
    }
}

pub open spec fn crlf() -> Seq<char> {
    "\r\n"@
}

/// A line of the response: its text and `\r\n`.
pub open spec fn line(s: Seq<char>) -> Seq<char> {
    s + crlf()
}

/// The head of a response with a body of `length` bytes.
pub open spec fn head_text(code: Code, typ: Type, length: nat) -> Seq<char> {
    line("HTTP/1.1 "@) + line(code_text(code)) + line("Date: Thu, 20 Dec 2001 12:04:30 GMT"@)
        + line("Content-Type: "@) + line(type_text(typ)) + line("Connection: keep-alive"@)
        + line("Content-Length: "@) + line(decimal(length)) + line(""@)
}

/// The Content-Length of a head is the body's length, for every length:
/// the line after the "Content-Length: " line, which ends the head before
/// its blank line, is all digits and reads as `length`.
pub proof fn law_content_length_reads_back(code: Code, typ: Type, length: nat)
    ensures
        head_text(code, typ, length).len() >= 22,
        head_text(code, typ, length).subrange(head_text(code, typ, length).len() - 4, head_text(code, typ, length).len() as int)
            == "\r\n\r\n"@,
        exists|j: int|
            #![trigger head_text(code, typ, length).subrange(j, head_text(code, typ, length).len() - 4)]
            18 <= j < head_text(code, typ, length).len() - 4
            && head_text(code, typ, length).subrange(j - 18, j) == "Content-Length: \r\n"@
            && (forall|i: int| j <= i < head_text(code, typ, length).len() - 4 ==> is_digit(#[trigger] head_text(code, typ, length)[i]))
            && numeral_value(head_text(code, typ, length).subrange(j, head_text(code, typ, length).len() - 4)) == length,
{
    reveal_strlit("\r\n");
    reveal_strlit("");
    reveal_strlit("Content-Length: ");
    reveal_strlit("Content-Length: \r\n");
    reveal_strlit("\r\n\r\n");
    lemma_decimal_reads_back(length);
    let h = head_text(code, typ, length);
    let a = line("HTTP/1.1 "@) + line(code_text(code)) + line("Date: Thu, 20 Dec 2001 12:04:30 GMT"@)
        + line("Content-Type: "@) + line(type_text(typ)) + line("Connection: keep-alive"@);
    let p = a + line("Content-Length: "@);
    let d = decimal(length);
    assert(h =~= p + d + "\r\n\r\n"@);
    let j = p.len() as int;
    let k = h.len() - 4;
    assert(k == j + d.len());
    assert(h.subrange(k, h.len() as int) =~= "\r\n\r\n"@);
    assert(h.subrange(j - 18, j) =~= "Content-Length: \r\n"@);
    assert(h.subrange(j, k) =~= d);
    assert forall|i: int| j <= i < k implies is_digit(#[trigger] h[i]) by {
        assert(h[i] == d[i - j]);
    }
}

/// The whole text of a response: the head, then the body as a last line.
pub open spec fn response_text(code: Code, typ: Type, body: Seq<char>) -> Seq<char> {
    head_text(code, typ, encode_utf8(body).len()) + line(body)
}

/// A response, as the text that goes to the client.
pub struct Response {
    message: InlinableString,
}

impl View for Response {
    type V = Seq<char>;

    closed spec fn view(&self) -> Seq<char> {
        inlinable_text(self.message)
    }
}

impl Response {
    /// The bytes of the response: the UTF-8 encoding of its text.
    pub fn into_bytes(self) -> (b: Vec<u8>)
        ensures
            b@ == encode_utf8(self@),
    {
        inlinable_into_bytes(self.message)
    }

    fn append_str(&mut self, line: &str)
        ensures
            final(self)@ == old(self)@ + line@ + crlf(),
    {
        inlinable_push_str(&mut self.message, line);
        inlinable_push_str(&mut self.message, "\r\n");
    }

    fn append_string(&mut self, line: String)
        ensures
            final(self)@ == old(self)@ + line@ + crlf(),
    {
        inlinable_push_str(&mut self.message, line.as_str());
        inlinable_push_str(&mut self.message, "\r\n");
    }

    fn append_inlstr(&mut self, line: InlinableString)
        ensures
            final(self)@ == old(self)@ + inlinable_text(line) + crlf(),
    {
        inlinable_push_str(&mut self.message, inlinable_as_str(&line));
        inlinable_push_str(&mut self.message, "\r\n");
    }

    pub(crate) fn create_headers(code: Code, typ: Type, length: usize) -> (r: Response)
        ensures
            r@ == head_text(code, typ, length as nat),
    {
        let mut response = Response { message: inlinable_new() };
        response.append_str("HTTP/1.1 ");
        response.append_str(code.to_str());
        response.append_str("Date: Thu, 20 Dec 2001 12:04:30 GMT");
        response.append_str("Content-Type: ");
        response.append_str(typ.to_str());
        response.append_str("Connection: keep-alive");
        response.append_str("Content-Length: ");
        response.append_string(usize_to_decimal(length));
        response.append_str("");
        assert(response@ =~= head_text(code, typ, length as nat));
        response
    }

    /// A response with the given code, content type and body.
    pub fn create(code: Code, typ: Type, body: InlinableString) -> (r: Response)
        ensures
            r@ == response_text(code, typ, inlinable_text(body)),
    {
        let length = inlinable_len(&body);
        let mut response = Response::create_headers(code, typ, length);
        response.append_inlstr(body);
        response
    }

    /// A response with the given code, content type and body, for bodies
    /// read from a buffer.
    pub fn create_from_buf(code: Code, typ: Type, body: InlinableString) -> (r: Response)
        ensures
            r@ == response_text(code, typ, inlinable_text(body)),
    {
        let length = inlinable_len(&body);
        let mut response = Response::create_headers(code, typ, length);
        response.append_inlstr(body);
        response
    }

    /// The answer to a request that failed on the server's side.
    pub fn create_500() -> (r: Response)
        ensures
            r@ == response_text(Code::Code500, Type::TextHtml, "500 Internal Server Error"@),
    {
        Response::create(Code::Code500, Type::TextHtml, inlinable_from_str("500 Internal Server Error"))
    }

    /// The answer to a request that could not be read.
    pub fn create_400() -> (r: Response)
        ensures
            r@ == response_text(Code::Code400, Type::TextHtml, "400 Bad Request"@),
    {
        Response::create(Code::Code400, Type::TextHtml, inlinable_from_str("400 Bad Request"))
    }
}

} // verus!
