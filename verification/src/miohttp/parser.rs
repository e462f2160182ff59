//! The HTTP request head as `httparse` reads it, held as plain values.

use vstd::prelude::*;

verus! {

/// One header line: its name and raw value.
pub struct RawHeader {
    pub name: String,
    pub value: Vec<u8>,
}

/// The parts of a request head that `httparse` fills in.
pub struct RawRequest {
    pub method: Option<String>,
    pub path: Option<String>,
    pub version: Option<u8>,
    pub headers: Vec<RawHeader>,
}

/// What a parse of a buffer gives.
pub enum ParseStatus {
    /// The head is complete; the number is the offset where the body starts.
    Complete(usize, RawRequest),
    /// The buffer ends before the head does.
    Partial,
    /// The buffer holds bytes that no request head may hold.
    Invalid,
}

pub struct SpecRawRequest {
    pub method: Option<Seq<char>>,
    pub path: Option<Seq<char>>,
    pub version: Option<u8>,
    pub headers: Seq<(Seq<char>, Seq<u8>)>,
}

pub enum SpecParseStatus {
    Complete(nat, SpecRawRequest),
    Partial,
    Invalid,
}

impl View for RawHeader {
    type V = (Seq<char>, Seq<u8>);

    open spec fn view(&self) -> (Seq<char>, Seq<u8>) {
        (self.name@, self.value@)
    }
}

pub open spec fn opt_text(o: Option<String>) -> Option<Seq<char>> {
    match o {
        Some(s) => Some(s@),
        None => None,
    }
}

impl View for RawRequest {
    type V = SpecRawRequest;

    open spec fn view(&self) -> SpecRawRequest {
        SpecRawRequest {
            method: opt_text(self.method),
            path: opt_text(self.path),
            version: self.version,
            headers: self.headers@.map_values(|h: RawHeader| h@),
        }
    }
}

impl View for ParseStatus {
    type V = SpecParseStatus;

    open spec fn view(&self) -> SpecParseStatus {
        match self {
            ParseStatus::Complete(n, r) => SpecParseStatus::Complete(*n as nat, r@),
            ParseStatus::Partial => SpecParseStatus::Partial,
            ParseStatus::Invalid => SpecParseStatus::Invalid,
        }
    }
}

/// What `httparse::Request::parse` makes of `buf` with room for
/// `max_headers` headers.
pub uninterp spec fn httparse_request(buf: Seq<u8>, max_headers: nat) -> SpecParseStatus;

/// Calls `httparse::Request::parse` on `buf` with `max_headers` empty
/// header slots and copies out what it read. The result is named; beside
/// it stand the facts that `httparse`'s source shows of a complete parse:
/// the body offset lies within the buffer, method, path and version are
/// set, and no more headers than slots are returned.
#[verifier::external_body]
pub(crate) fn parse_request(buf: &[u8], max_headers: usize) -> (r: ParseStatus)
    ensures
        r@ == httparse_request(buf@, max_headers as nat),
        r matches ParseStatus::Complete(n, req) ==> {
            &&& n <= buf@.len()
            &&& req.method is Some
            &&& req.path is Some
            &&& req.version is Some
            &&& req.headers@.len() <= max_headers
        },
{
    let mut headers = vec![httparse::EMPTY_HEADER; max_headers];
    let mut req = httparse::Request::new(&mut headers);
    match req.parse(buf) {
        Ok(httparse::Status::Complete(n)) => ParseStatus::Complete(n, RawRequest {
            method: req.method.map(String::from),
            path: req.path.map(String::from),
            version: req.version,
            headers: req.headers.iter().map(|h| RawHeader { name: h.name.to_string(), value: h.value.to_vec() }).collect(),
        }),
        Ok(httparse::Status::Partial) => ParseStatus::Partial,
        Err(_) => ParseStatus::Invalid,
    }
}

} // verus!
