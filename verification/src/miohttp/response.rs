//! Responses of the event-loop server, held as a `String`: the lines of the
//! head and the body joined by `\r\n`.

use vstd::prelude::*;
use vstd::utf8::encode_utf8;
use crate::text::{decimal, usize_to_decimal};

verus! {

/// HTTP status codes.
#[derive(Debug, Clone, Copy, PartialEq, Eq, Structural)]
pub enum Code {
    Code200,
    Code404,
}

pub open spec fn code_text(code: Code) -> Seq<char> {
    match code {
        Code::Code200 => "200 OK"@,
        Code::Code404 => "404 Not Found"@,
    }
}

impl Code {
    pub fn to_str(&self) -> (r: &str)
        ensures
            r@ == code_text(*self),
    {
        match *self {
            Code::Code200 => "200 OK",
            Code::Code404 => "404 Not Found",
        }
    }
}

/// Content types.
#[derive(Debug, Clone, Copy, PartialEq, Eq, Structural)]
pub enum Type {
    Html,
}

pub open spec fn type_text(typ: Type) -> Seq<char> {
    match typ {
        Type::Html => "text/html; charset=utf-8"@,
    }
}

impl Type {
    pub fn to_str(&self) -> (r: &str)
        ensures
            r@ == type_text(*self),
    {
        match *self {
            Type::Html => "text/html; charset=utf-8",
        }
    }
}

pub open spec fn crlf() -> Seq<char> {
    "\r\n"@
}

/// The text of a response: status line, date, content type, connection,
/// content length (in bytes of the body), an empty line and the body,
/// joined by `\r\n`.
pub open spec fn response_text(code: Code, typ: Type, body: Seq<char>) -> Seq<char> {
    "HTTP/1.1 "@ + code_text(code) + crlf()
        + "Date: Thu, 20 Dec 2001 12:04:30 GMT"@ + crlf()
        + "Content-Type: "@ + type_text(typ) + crlf()
        + "Connection: keep-alive"@ + crlf()
        + "Content-length: "@ + decimal(encode_utf8(body).len()) + crlf()
        + crlf()
        + body
}

/// A response, as the text that goes to the client.
#[derive(Debug)]
pub struct Response {
    pub message: String,
}

impl Response {
    pub fn from_string(mess: String) -> (r: Response)
        ensures
            r.message@ == mess@,
    {
        Response { message: mess }
    }

    /// The UTF-8 bytes of the text.
    pub fn as_bytes(&self) -> (b: &[u8])
        ensures
            b@ == encode_utf8(self.message@),
    {
        self.message.as_str().as_bytes()
    }

    pub fn create(code: Code, typ: Type, body: String) -> (r: Response)
        requires
            encode_utf8(body@).len() <= usize::MAX,
        ensures
            r.message@ == response_text(code, typ, body@),
    {
        let length = body.as_str().len();
        let mut message = String::from_str("HTTP/1.1 ");
        message.append(code.to_str());
        message.append("\r\n");
        message.append("Date: Thu, 20 Dec 2001 12:04:30 GMT");
        message.append("\r\n");
        message.append("Content-Type: ");
        message.append(typ.to_str());
        message.append("\r\n");
        message.append("Connection: keep-alive");
        message.append("\r\n");
        message.append("Content-length: ");
        let numeral = usize_to_decimal(length);
        message.append(numeral.as_str());
        message.append("\r\n");
        message.append("\r\n");
        message.append(body.as_str());
        assert(message@ == response_text(code, typ, body@));
        Response { message }
    }
}

} // verus!
