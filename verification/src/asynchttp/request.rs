//! Requests of the asynchronous front: method, path and headers held in
//! fixed-size, zero-padded byte arrays, and an answer owed to every request.

use vstd::prelude::*;
use vstd::utf8::encode_utf8;
use crate::asynchttp::httpstr::{self, same_text, padded};
use crate::asynchttp::response::{Response, response_text, Code, Type};
use crate::miohttp::parser::{RawRequest, RawHeader, SpecRawRequest};
use crate::text::{trim, trimmed};

verus! {

#[verifier::external_type_specification]
#[verifier::external_body]
pub struct ExIoError(std::io::Error);

/// Calls `std::io::Error::new` with `ErrorKind::InvalidInput` and the
/// message given. What the error holds is not stated.
#[verifier::external_body]
fn invalid_input(message: &str) -> (e: std::io::Error) {
    std::io::Error::new(std::io::ErrorKind::InvalidInput, message)
}

/// The header table that inserting the headers in order gives: a later
/// header of the same (padded) name replaces an earlier one.
pub open spec fn header_table(hs: Seq<(Seq<char>, Seq<u8>)>) -> Map<Seq<u8>, Seq<u8>>
    decreases hs.len(),
{
    if hs.len() == 0 {
        Map::empty()
    } else {
        let h = hs.last();
        header_table(hs.drop_last()).insert(
            padded(encode_utf8(h.0), httpstr::HEADER_NAME_LENGTH as nat),
            padded(h.1, httpstr::HEADER_VALUE_LENGTH as nat),
        )
    }
}

pub struct SpecPreRequest {
    pub method: Seq<u8>,
    pub path: Seq<u8>,
    pub version: u8,
    pub headers: Map<Seq<u8>, Seq<u8>>,
}

/// The head that a complete raw request gives.
pub open spec fn padded_head(raw: SpecRawRequest) -> SpecPreRequest {
    SpecPreRequest {
        method: padded(encode_utf8(raw.method.unwrap()), httpstr::METHOD_NAME_LENGTH as nat),
        path: padded(encode_utf8(raw.path.unwrap()), httpstr::PATH_LENGTH as nat),
        version: raw.version.unwrap(),
        headers: header_table(raw.headers),
    }
}

/// Headers as (name, value) arrays; no name occurs twice.
pub open spec fn table_of(hs: Seq<([u8; 32], [u8; 256])>) -> Map<Seq<u8>, Seq<u8>> {
    Map::new(
        |k: Seq<u8>| exists|i: int| 0 <= i < hs.len() && #[trigger] hs[i].0@ == k,
        |k: Seq<u8>| hs[choose|i: int| 0 <= i < hs.len() && #[trigger] hs[i].0@ == k].1@,
    )
}

pub open spec fn keys_unique(hs: Seq<([u8; 32], [u8; 256])>) -> bool {
    forall|i: int, j: int| 0 <= i < j < hs.len() ==> #[trigger] hs[i].0@ != #[trigger] hs[j].0@
}

pub struct PreRequest {
    method: [u8; 16],
    path: [u8; 4096],
    version: u8,
    headers: Vec<([u8; 32], [u8; 256])>,
}

impl View for PreRequest {
    type V = SpecPreRequest;

    closed spec fn view(&self) -> SpecPreRequest {
        SpecPreRequest {
            method: self.method@,
            path: self.path@,
            version: self.version,
            headers: table_of(self.headers@),
        }
    }
}

fn padded_copy_32(src: &[u8]) -> (r: [u8; 32])
    ensures
        r@ == padded(src@, 32),
{
    let mut a = [0u8; 32];
    httpstr::copy(src, &mut a);
    assert(a@ =~= padded(src@, 32));
    a
}

fn padded_copy_256(src: &[u8]) -> (r: [u8; 256])
    ensures
        r@ == padded(src@, 256),
{
    let mut a = [0u8; 256];
    httpstr::copy(src, &mut a);
    assert(a@ =~= padded(src@, 256));
    a
}

/// In a table whose names are unique, each entry is found under its name.
proof fn lemma_table_at(hs: Seq<([u8; 32], [u8; 256])>, i: int)
    requires
        keys_unique(hs),
        0 <= i < hs.len(),
    ensures
        table_of(hs).contains_key(hs[i].0@),
        table_of(hs)[hs[i].0@] == hs[i].1@,
{
    let k = hs[i].0@;
    assert(exists|j: int| 0 <= j < hs.len() && #[trigger] hs[j].0@ == k);
    let j = choose|j: int| 0 <= j < hs.len() && #[trigger] hs[j].0@ == k;
    if j < i {
        assert(hs[j].0@ != hs[i].0@);
    } else if j > i {
        assert(hs[i].0@ != hs[j].0@);
    }
}

/// Puts a header into the table, replacing one of the same name.
fn insert_header(headers: &mut Vec<([u8; 32], [u8; 256])>, key: [u8; 32], value: [u8; 256])
    requires
        keys_unique(old(headers)@),
    ensures
        keys_unique(final(headers)@),
        table_of(final(headers)@) == table_of(old(headers)@).insert(key@, value@),
{
    let ghost before = headers@;
    let mut i: usize = 0;
    while i < headers.len()
        invariant
            i <= headers@.len(),
            headers@ == before,
            before == old(headers)@,
            keys_unique(before),
            forall|k: int| 0 <= k < i ==> headers@[k].0@ != key@,
        decreases headers@.len() - i,
    {
        if slice_equal(headers[i].0.as_slice(), key.as_slice()) {
            headers.set(i, (key, value));
            let ghost after = headers@;
            assert(keys_unique(after)) by {
                assert forall|a: int, b: int| 0 <= a < b < after.len() implies
                    #[trigger] after[a].0@ != #[trigger] after[b].0@ by {
                    assert(before[a].0@ != before[b].0@);
                }
            }
            assert(table_of(after) =~= table_of(before).insert(key@, value@)) by {
                assert forall|k: Seq<u8>| #[trigger] table_of(after).contains_key(k)
                    == table_of(before).insert(key@, value@).contains_key(k) by {
                    if table_of(after).contains_key(k) {
                        let j = choose|j: int| 0 <= j < after.len() && #[trigger] after[j].0@ == k;
                        assert(before[j].0@ == k);
                    }
                    if table_of(before).contains_key(k) {
                        let j = choose|j: int| 0 <= j < before.len() && #[trigger] before[j].0@ == k;
                        assert(after[j].0@ == k);
                    }
                    if k == key@ {
                        assert(after[i as int].0@ == k);
                    }
                }
                assert forall|k: Seq<u8>| table_of(after).contains_key(k) implies table_of(after)[k]
                    == table_of(before).insert(key@, value@)[k] by {
                    let j = choose|j: int| 0 <= j < after.len() && #[trigger] after[j].0@ == k;
                    lemma_table_at(after, j);
                    if j != i as int {
                        lemma_table_at(before, j);
                    }
                }
            }
            return;
        }
        i = i + 1;
    }
    headers.push((key, value));
    let ghost after = headers@;
    assert(keys_unique(after)) by {
        assert forall|a: int, b: int| 0 <= a < b < after.len() implies
            #[trigger] after[a].0@ != #[trigger] after[b].0@ by {
            if b < before.len() {
                assert(before[a].0@ != before[b].0@);
            } else {
                assert(before[a].0@ != key@);
            }
        }
    }
    assert(table_of(after) =~= table_of(before).insert(key@, value@)) by {
        assert forall|k: Seq<u8>| #[trigger] table_of(after).contains_key(k)
            == table_of(before).insert(key@, value@).contains_key(k) by {
            if table_of(after).contains_key(k) {
                let j = choose|j: int| 0 <= j < after.len() && #[trigger] after[j].0@ == k;
                if j < before.len() {
                    assert(before[j].0@ == k);
                }
            }
            if table_of(before).contains_key(k) {
                let j = choose|j: int| 0 <= j < before.len() && #[trigger] before[j].0@ == k;
                assert(after[j].0@ == k);
            }
            if k == key@ {
                assert(after[before.len() as int].0@ == k);
            }
        }
        assert forall|k: Seq<u8>| table_of(after).contains_key(k) implies table_of(after)[k]
            == table_of(before).insert(key@, value@)[k] by {
            let j = choose|j: int| 0 <= j < after.len() && #[trigger] after[j].0@ == k;
            lemma_table_at(after, j);
            if j < before.len() {
                lemma_table_at(before, j);
            }
        }
    }
}

impl PreRequest {
    /// Copies the head that `httparse` read into fixed-size fields; text
    /// longer than a field is cut. A later header of the same name
    /// replaces an earlier one. A head without method, path or version is
    /// refused.
    pub fn new(req: RawRequest) -> (r: Result<PreRequest, std::io::Error>)
        ensures
            r is Ok <==> (req@.method is Some && req@.path is Some && req@.version is Some),
            r matches Ok(p) ==> p@ == padded_head(req@) && p.wf(),
    {
        let ghost raw = req@;
        match req {
            RawRequest { method: Some(method), path: Some(path), version: Some(version), headers: raw_headers } => {
                let mut pre_request = PreRequest {
                    method: [0u8; 16],
                    path: [0u8; 4096],
                    version,
                    headers: Vec::new(),
                };
                httpstr::copy(method.as_str().as_bytes(), &mut pre_request.method);
                httpstr::copy(path.as_str().as_bytes(), &mut pre_request.path);
                assert(pre_request.method@ =~= padded(encode_utf8(method@), 16));
                assert(pre_request.path@ =~= padded(encode_utf8(path@), 4096));
                let ghost hs = raw.headers;
                assert(table_of(pre_request.headers@) =~= header_table(hs.take(0)));
                let mut i: usize = 0;
                while i < raw_headers.len()
                    invariant
                        hs == raw_headers@.map_values(|h: RawHeader| h@),
                        i <= raw_headers@.len(),
                        keys_unique(pre_request.headers@),
                        table_of(pre_request.headers@) == header_table(hs.take(i as int)),
                        pre_request.method@ == padded(encode_utf8(method@), 16),
                        pre_request.path@ == padded(encode_utf8(path@), 4096),
                        pre_request.version == version,
                    decreases raw_headers@.len() - i,
                {
                    let key = padded_copy_32(raw_headers[i].name.as_str().as_bytes());
                    let value = padded_copy_256(raw_headers[i].value.as_slice());
                    assert(hs[i as int] == raw_headers@[i as int]@);
                    insert_header(&mut pre_request.headers, key, value);
                    assert(hs.take(i as int + 1).drop_last() =~= hs.take(i as int));
                    i = i + 1;
                }
                assert(hs.take(i as int) =~= hs);
                Ok(pre_request)
            },
            _ => Err(invalid_input("Błąd tworzenia odpowiedzi")),
        }
    }

    pub closed spec fn wf(&self) -> bool {
        keys_unique(self.headers@)
    }

    /// Attaches the token of the connection that awaits the answer.
    pub fn bind(self, token: usize) -> (r: Request)
        requires
            self.wf(),
        ensures
            r.wf(),
            r@.head == self@,
            r@.token == token,
            !r@.is_send,
    {
        Request {
            is_send: false,
            method: self.method,
            path: self.path,
            version: self.version,
            headers: self.headers,
            token,
        }
    }
}

pub struct SpecRequest {
    pub head: SpecPreRequest,
    pub token: usize,
    pub is_send: bool,
}

/// A request whose answer is owed to the connection named by the token:
/// the one sent, or, if none is sent, a 500.
pub struct Request {
    is_send: bool,
    pub method: [u8; 16],
    pub path: [u8; 4096],
    pub version: u8,
    headers: Vec<([u8; 32], [u8; 256])>,
    token: usize,
}

impl View for Request {
    type V = SpecRequest;

    closed spec fn view(&self) -> SpecRequest {
        SpecRequest {
            head: SpecPreRequest {
                method: self.method@,
                path: self.path@,
                version: self.version,
                headers: table_of(self.headers@),
            },
            token: self.token,
            is_send: self.is_send,
        }
    }
}

/// The answer a request gets when none was sent.
pub open spec fn fallback_text() -> Seq<char> {
    response_text(Code::Code500, Type::TextHtml, "500 Internal Server Error"@)
}

/// The answer a request still owes when it is dropped: the 500, to its
/// connection, unless an answer was sent.
pub open spec fn owed_answer(r: SpecRequest) -> Option<(usize, Seq<char>)> {
    if r.is_send {
        None
    } else {
        Some((r.token, fallback_text()))
    }
}

/// A request is answered exactly once: a request just bound to its
/// connection owes the 500, and once an answer is sent it owes nothing.
pub proof fn lemma_answered_once(head: SpecPreRequest, token: usize, r: SpecRequest)
    ensures
        owed_answer(SpecRequest { head, token, is_send: false }) == Some((token, fallback_text())),
        owed_answer(SpecRequest { is_send: true, ..r }) is None,
{
}

impl Request {
    pub closed spec fn wf(&self) -> bool {
        keys_unique(self.headers@)
    }

    /// Whether header `name` holds `value` (without surrounding white
    /// space), compared as zero-padded text. The table is looked up with
    /// the bytes of `name` themselves, so only a name that fills the
    /// whole name field is found.
    pub fn is_header_set(&self, name: &str, value: &str) -> (r: bool)
        requires
            self.wf(),
        ensures
            r == (self@.head.headers.contains_key(encode_utf8(name@))
                && same_text(self@.head.headers[encode_utf8(name@)], encode_utf8(trimmed(value@)))),
    {
        let key = name.as_bytes();
        let mut i: usize = 0;
        while i < self.headers.len()
            invariant
                i <= self.headers@.len(),
                self.wf(),
                key@ == encode_utf8(name@),
                forall|k: int| 0 <= k < i ==> self.headers@[k].0@ != key@,
            decreases self.headers@.len() - i,
        {
            if slice_equal(self.headers[i].0.as_slice(), key) {
                proof { lemma_table_at(self.headers@, i as int); }
                return httpstr::eq(self.headers[i].1.as_slice(), trim(value).as_bytes());
            }
            i = i + 1;
        }
        false
    }

    /// Gives the answer to send to the connection, and marks the request
    /// as answered.
    pub fn send(&mut self, response: Response) -> (r: (usize, Response))
        ensures
            r == (old(self)@.token, response),
            final(self)@ == (SpecRequest { is_send: true, ..old(self)@ }),
            final(self).wf() == old(self).wf(),
    {
        self.is_send = true;
        (self.token, response)
    }

    /// The answer owed when the request is dropped: a 500 when no answer
    /// was sent, nothing when one was.
    pub fn drop_reply(&self) -> (r: Option<(usize, Response)>)
        ensures
            match r {
                Some((t, resp)) => owed_answer(self@) == Some((t, resp@)),
                None => owed_answer(self@) is None,
            },
    {
        if self.is_send == false {
            Some((self.token, Response::create_500()))
        } else {
            None
        }
    }
}

/// Compares two byte slices.
pub fn slice_equal(a: &[u8], b: &[u8]) -> (r: bool)
    ensures
        r == (a@ == b@),
{
    if a.len() != b.len() {
        return false;
    }
    let mut i: usize = 0;
    while i < a.len()
        invariant
            a@.len() == b@.len(),
            i <= a@.len(),
            forall|k: int| 0 <= k < i ==> a@[k] == b@[k],
        decreases a@.len() - i,
    {
        if a[i] != b[i] {
            return false;
        }
        i = i + 1;
    }
    assert(a@ =~= b@);
    true
}

} // verus!
