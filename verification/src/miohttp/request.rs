//! Requests of the event-loop server: the head read from a connection,
//! with text fields and headers whose names occur once.

use vstd::prelude::*;
use vstd::utf8::{valid_utf8, decode_utf8};
use crate::miohttp::parser::{RawRequest, RawHeader, SpecRawRequest};
use crate::text::{trimmed, trim, utf8_to_string, str_equal};

verus! {

/// Headers as (name, value) text pairs in the order they were read.
pub type SpecHeaders = Seq<(Seq<char>, Seq<char>)>;

/// No name occurs twice.
pub open spec fn names_unique(hs: SpecHeaders) -> bool {
    forall|i: int, j: int| 0 <= i < j < hs.len() ==> #[trigger] hs[i].0 != #[trigger] hs[j].0
}

/// Header `i` of a raw head is refused: its value is not UTF-8, or a
/// header before it has the same name.
pub open spec fn header_refused(hs: Seq<(Seq<char>, Seq<u8>)>, i: int) -> bool {
    ||| !valid_utf8(hs[i].1)
    ||| exists|j: int| 0 <= j < i && #[trigger] hs[j].0 == hs[i].0
}

/// Every header of a raw head is accepted.
pub open spec fn headers_accepted(hs: Seq<(Seq<char>, Seq<u8>)>) -> bool {
    forall|i: int| 0 <= i < hs.len() ==> !#[trigger] header_refused(hs, i)
}

/// The first refused header is at `i`.
pub open spec fn first_refused(hs: Seq<(Seq<char>, Seq<u8>)>, i: int) -> bool {
    &&& 0 <= i < hs.len()
    &&& header_refused(hs, i)
    &&& forall|k: int| 0 <= k < i ==> !#[trigger] header_refused(hs, k)
}

proof fn lemma_first_refused_unique(hs: Seq<(Seq<char>, Seq<u8>)>, i: int, j: int)
    requires
        first_refused(hs, i),
        first_refused(hs, j),
    ensures
        i == j,
{
    if i < j {
        assert(!header_refused(hs, i));
    }
    if j < i {
        assert(!header_refused(hs, j));
    }
}

/// The decoded headers of a raw head.
pub open spec fn decoded_headers(hs: Seq<(Seq<char>, Seq<u8>)>) -> SpecHeaders {
    hs.map_values(|h: (Seq<char>, Seq<u8>)| (h.0, decode_utf8(h.1)))
}

/// The text of a request head with its headers.
pub struct SpecRequestHead {
    pub method: Seq<char>,
    pub path: Seq<char>,
    pub version: u8,
    pub headers: SpecHeaders,
}

/// Whether the head of a raw request is complete: method, path and version set.
pub open spec fn raw_complete(raw: SpecRawRequest) -> bool {
    raw.method is Some && raw.path is Some && raw.version is Some
}

/// The head that a raw request gives when it is accepted.
pub open spec fn accepted_head(raw: SpecRawRequest) -> SpecRequestHead {
    SpecRequestHead {
        method: raw.method.unwrap(),
        path: raw.path.unwrap(),
        version: raw.version.unwrap(),
        headers: decoded_headers(raw.headers),
    }
}

/// Whether a raw request is accepted as a request.
pub open spec fn raw_accepted(raw: SpecRawRequest) -> bool {
    raw_complete(raw) && headers_accepted(raw.headers)
}

/// A request head whose fields are text.
pub struct PreRequest {
    method: String,
    path: String,
    version: u8,
    headers: Vec<(String, String)>,
}

pub open spec fn headers_view(hs: Seq<(String, String)>) -> SpecHeaders {
    hs.map_values(|h: (String, String)| (h.0@, h.1@))
}

impl View for PreRequest {
    type V = SpecRequestHead;

    closed spec fn view(&self) -> SpecRequestHead {
        SpecRequestHead {
            method: self.method@,
            path: self.path@,
            version: self.version,
            headers: headers_view(self.headers@),
        }
    }
}

/// The value of header `name`, where it is set.
pub open spec fn header_value(hs: SpecHeaders, name: Seq<char>) -> Option<Seq<char>> {
    if exists|i: int| 0 <= i < hs.len() && #[trigger] hs[i].0 == name {
        Some(hs[choose|i: int| 0 <= i < hs.len() && #[trigger] hs[i].0 == name].1)
    } else {
        None
    }
}

/// The position of the header named `name`, if any.
fn find_header(headers: &Vec<(String, String)>, name: &str) -> (r: Option<usize>)
    ensures
        r matches Some(i) ==> i < headers@.len() && headers@[i as int].0@ == name@,
        r is None ==> forall|i: int| 0 <= i < headers@.len() ==> headers@[i].0@ != name@,
{
    let mut i: usize = 0;
    while i < headers.len()
        invariant
            i <= headers@.len(),
            forall|k: int| 0 <= k < i ==> headers@[k].0@ != name@,
        decreases headers@.len() - i,
    {
        if str_equal(headers[i].0.as_str(), name) {
            return Some(i);
        }
        i = i + 1;
    }
    None
}

/// Whether header `name` is set to `value`, `value` taken without
/// surrounding white space.
fn headers_has(headers: &Vec<(String, String)>, name: &str, value: &str) -> (r: bool)
    requires
        names_unique(headers_view(headers@)),
    ensures
        r == (header_value(headers_view(headers@), name@) == Some(trimmed(value@))),
{
    let ghost hs = headers_view(headers@);
    match find_header(headers, name) {
        Some(i) => {
            assert(hs[i as int].0 == name@);
            let ghost c = choose|k: int| 0 <= k < hs.len() && #[trigger] hs[k].0 == name@;
            assert(c == i) by {
                if c != i {
                    if c < i {
                        assert(hs[c].0 != hs[i as int].0);
                    } else {
                        assert(hs[i as int].0 != hs[c].0);
                    }
                }
            }
            str_equal(headers[i].1.as_str(), trim(value))
        },
        None => {
            assert(!exists|k: int| 0 <= k < hs.len() && #[trigger] hs[k].0 == name@) by {
                assert forall|k: int| 0 <= k < hs.len() implies #[trigger] hs[k].0 != name@ by {
                    assert(headers@[k].0@ != name@);
                }
            }
            false
        },
    }
}

impl PreRequest {
    /// Takes the head that `httparse` read. Refused, with a message: a
    /// head without method, path or version; a header value that is not
    /// UTF-8; a header name that occurs twice. The first refused header
    /// decides the message.
    pub fn new(req: RawRequest) -> (r: Result<PreRequest, String>)
        ensures
            r is Ok <==> raw_accepted(req@),
            r matches Ok(p) ==> p@ == accepted_head(req@) && p.wf(),
            !raw_complete(req@) ==> (r matches Err(m) && m@ == "Błąd tworzenia odpowiedzi"@),
            forall|i: int| raw_complete(req@) && #[trigger] first_refused(req@.headers, i) ==> {
                &&& valid_utf8(req@.headers[i].1) ==> (r matches Err(m) && m@ == "double header: "@ + req@.headers[i].0)
                &&& !valid_utf8(req@.headers[i].1) ==> (r matches Err(m)
                    && m@.subrange(0, ("header "@ + req@.headers[i].0 + ", error utf8 sequence: "@).len() as int)
                        == "header "@ + req@.headers[i].0 + ", error utf8 sequence: "@)
            },
    {
        let ghost raw = req@;
        match req {
            RawRequest { method: Some(method), path: Some(path), version: Some(version), headers: raw_headers } => {
                let ghost hs = raw.headers;
                assert(hs == raw_headers@.map_values(|h: RawHeader| h@));
                let mut headers: Vec<(String, String)> = Vec::new();
                let mut i: usize = 0;
                while i < raw_headers.len()
                    invariant
                        raw == req@,
                        raw_complete(raw),
                        hs == raw.headers,
                        hs == raw_headers@.map_values(|h: RawHeader| h@),
                        i <= raw_headers@.len(),
                        forall|k: int| 0 <= k < i ==> !#[trigger] header_refused(hs, k),
                        headers@.len() == i,
                        hs.len() == raw_headers@.len(),
                        headers_view(headers@) =~= decoded_headers(hs.take(i as int)),
                        names_unique(headers_view(headers@)),
                    decreases raw_headers@.len() - i,
                {
                    let key = raw_headers[i].name.clone();
                    assert(hs[i as int] == raw_headers@[i as int]@);
                    let value = match utf8_to_string(raw_headers[i].value.as_slice()) {
                        Ok(value) => value,
                        Err(err) => {
                            assert(!valid_utf8(raw_headers@[i as int].value@));
                            assert(header_refused(hs, i as int));
                            let mut m = String::from_str("header ");
                            m.append(key.as_str());
                            m.append(", error utf8 sequence: ");
                            let ghost prefix = m@;
                            m.append(err.as_str());
                            assert(first_refused(hs, i as int));
                            assert(m@.subrange(0, prefix.len() as int) =~= prefix);
                            proof {
                                assert forall|j: int| raw_complete(raw) && #[trigger] first_refused(raw.headers, j) implies j == i by {
                                    lemma_first_refused_unique(hs, i as int, j);
                                }
                            }
                            return Err(m);
                        },
                    };
                    match find_header(&headers, key.as_str()) {
                        Some(j) => {
                            let mut m = String::from_str("double header: ");
                            m.append(key.as_str());
                            assert(headers_view(headers@)[j as int] == (headers@[j as int].0@, headers@[j as int].1@));
                            assert(decoded_headers(hs.take(i as int))[j as int].0 == hs.take(i as int)[j as int].0);
                            assert(headers_view(headers@)[j as int].0 == hs[j as int].0);
                            assert(header_refused(hs, i as int));
                            assert(first_refused(hs, i as int));
                            proof {
                                assert forall|k: int| raw_complete(raw) && #[trigger] first_refused(raw.headers, k) implies k == i by {
                                    lemma_first_refused_unique(hs, i as int, k);
                                }
                            }
                            return Err(m);
                        },
                        None => {
                            assert(!header_refused(hs, i as int)) by {
                                assert forall|j: int| 0 <= j < i implies #[trigger] hs[j].0 != hs[i as int].0 by {
                                    assert(headers_view(headers@)[j] == (headers@[j].0@, headers@[j].1@));
                                    assert(decoded_headers(hs.take(i as int))[j].0 == hs.take(i as int)[j].0);
                                    assert(headers_view(headers@)[j].0 == hs[j].0);
                                }
                            }
                            let ghost old_headers = headers@;
                            headers.push((key, value));
                            assert(headers@ == old_headers.push((key, value)));
                            assert forall|k: int| 0 <= k < i + 1 implies #[trigger] headers_view(headers@)[k] == decoded_headers(hs.take(i as int + 1))[k] by {
                                if k < i {
                                    assert(headers@[k] == old_headers[k]);
                                    assert(headers_view(old_headers)[k] == decoded_headers(hs.take(i as int))[k]);
                                } else {
                                    assert(headers@[k] == (key, value));
                                }
                            }
                            assert(headers_view(headers@) =~= decoded_headers(hs.take(i as int + 1)));
                            assert forall|a: int, b: int| 0 <= a < b < headers_view(headers@).len() implies #[trigger] headers_view(headers@)[a].0 != #[trigger] headers_view(headers@)[b].0 by {
                                if b < i {
                                    assert(headers_view(old_headers)[a].0 != headers_view(old_headers)[b].0);
                                    assert(headers@[a] == old_headers[a]);
                                    assert(headers@[b] == old_headers[b]);
                                } else {
                                    assert(headers_view(headers@)[a].0 == hs[a].0);
                                }
                            }
                            i = i + 1;
                        },
                    }
                }
                assert(hs.take(i as int) =~= hs);
                let pre = PreRequest { method, path, version, headers };
                assert(forall|j: int| raw_complete(raw) ==> !#[trigger] first_refused(raw.headers, j));
                Ok(pre)
            },
            _ => {
                assert(!raw_accepted(raw));
                Err(String::from_str("Błąd tworzenia odpowiedzi"))
            },
        }
    }

    pub closed spec fn wf(&self) -> bool {
        names_unique(headers_view(self.headers@))
    }

    /// Attaches the token of the connection the head was read from.
    pub fn bind(self, token: usize) -> (r: Request)
        requires
            self.wf(),
        ensures
            r.wf(),
            r@.head == self@,
            r@.token == token,
    {
        Request { method: self.method, path: self.path, version: self.version, headers: self.headers, token }
    }
}

pub struct SpecRequest {
    pub head: SpecRequestHead,
    pub token: usize,
}

/// A request bound to the connection whose answer it awaits.
pub struct Request {
    pub method: String,
    pub path: String,
    pub version: u8,
    headers: Vec<(String, String)>,
    token: usize,
}

impl View for Request {
    type V = SpecRequest;

    closed spec fn view(&self) -> SpecRequest {
        SpecRequest {
            head: SpecRequestHead {
                method: self.method@,
                path: self.path@,
                version: self.version,
                headers: headers_view(self.headers@),
            },
            token: self.token,
        }
    }
}

impl Request {
    pub closed spec fn wf(&self) -> bool {
        names_unique(headers_view(self.headers@))
    }

    /// Whether header `name` is set to `value`, the value given taken
    /// without surrounding white space.
    pub fn is_header_set(&self, name: &str, value: &str) -> (r: bool)
        requires
            self.wf(),
        ensures
            r == (header_value(self@.head.headers, name@) == Some(trimmed(value@))),
    {
        headers_has(&self.headers, name, value)
    }

    /// The token of the connection that awaits the answer.
    pub fn token(&self) -> (t: usize)
        ensures
            t == self@.token,
    {
        self.token
    }
}

} // verus!
