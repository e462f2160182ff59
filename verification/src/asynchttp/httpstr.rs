//! Fixed-size, zero-padded byte strings for request fields.

use vstd::prelude::*;
use vstd::utf8::{valid_utf8, decode_utf8};
use crate::text::utf8_to_string;

verus! {

pub const METHOD_NAME_LENGTH: usize = 16;
pub const PATH_LENGTH: usize = 4096;
pub const HEADER_NAME_LENGTH: usize = 32;
pub const HEADER_VALUE_LENGTH: usize = 256;

pub type MethodName = [u8; 16];
pub type Path = [u8; 4096];
pub type HeaderName = [u8; 32];
pub type HeaderValue = [u8; 256];

pub open spec fn min(a: int, b: int) -> int {
    if a <= b { a } else { b }
}

/// Copies as many bytes of `src` as fit into the start of `dst`; returns
/// how many were copied.
pub fn copy(src: &[u8], dst: &mut [u8]) -> (n: usize)
    ensures
        n == min(src@.len() as int, old(dst)@.len() as int),
        final(dst)@.len() == old(dst)@.len(),
        final(dst)@ == src@.subrange(0, n as int) + old(dst)@.subrange(n as int, old(dst)@.len() as int),
{
    let len = if src.len() < dst.len() { src.len() } else { dst.len() };
    let mut i: usize = 0;
    while i < len
        invariant
            len == min(src@.len() as int, old(dst)@.len() as int),
            i <= len,
            dst@.len() == old(dst)@.len(),
            forall|k: int| 0 <= k < i ==> dst@[k] == src@[k],
            forall|k: int| i <= k < dst@.len() ==> dst@[k] == old(dst)@[k],
        decreases len - i,
    {
        dst[i] = src[i];
        i = i + 1;
    }
    assert(dst@ =~= src@.subrange(0, len as int) + old(dst)@.subrange(len as int, old(dst)@.len() as int));
    len
}

/// `bytes` copied into the start of `n` zero bytes, as far as they fit.
pub open spec fn padded(bytes: Seq<u8>, n: nat) -> Seq<u8> {
    let k = min(bytes.len() as int, n as int);
    bytes.subrange(0, k) + Seq::new((n - k) as nat, |i: int| 0u8)
}

/// Where the text of a zero-padded byte string ends: at its first zero
/// byte, or at its end when it has none.
pub open spec fn is_text_end(src: Seq<u8>, e: int) -> bool {
    &&& 0 <= e <= src.len()
    &&& forall|j: int| 0 <= j < e ==> src[j] != 0
    &&& (e == src.len() || src[e] == 0)
}

/// The length of the text of a zero-padded byte string.
pub open spec fn text_len(src: Seq<u8>) -> int {
    choose|e: int| is_text_end(src, e)
}

/// The text of a zero-padded byte string: its bytes before the first
/// zero byte, or all of them when it has none.
pub open spec fn text_of(src: Seq<u8>) -> Seq<u8> {
    src.take(text_len(src))
}

/// Whether two zero-padded byte strings hold the same text.
pub open spec fn same_text(one: Seq<u8>, two: Seq<u8>) -> bool {
    text_of(one) == text_of(two)
}

/// A string has one end of text.
pub proof fn lemma_text_end_unique(src: Seq<u8>, e1: int, e2: int)
    requires
        is_text_end(src, e1),
        is_text_end(src, e2),
    ensures
        e1 == e2,
{
    if e1 < e2 {
        assert(src[e1] != 0);
    } else if e2 < e1 {
        assert(src[e2] != 0);
    }
}

/// The end of text that a search finds is the one `text_len` names.
proof fn lemma_text_len_is(src: Seq<u8>, e: int)
    requires
        is_text_end(src, e),
    ensures
        text_len(src) == e,
        text_of(src) == src.take(e),
{
    lemma_text_end_unique(src, text_len(src), e);
}

/// Where the text of `src` ends.
fn text_end(src: &[u8]) -> (e: usize)
    ensures
        is_text_end(src@, e as int),
        text_len(src@) == e,
        text_of(src@) == src@.take(e as int),
{
    let mut e: usize = 0;
    while e < src.len() && src[e] != 0
        invariant
            e <= src@.len(),
            forall|j: int| 0 <= j < e ==> src@[j] != 0,
        decreases src@.len() - e,
    {
        e = e + 1;
    }
    proof {
        lemma_text_len_is(src@, e as int);
    }
    e
}

/// Checks two zero-padded byte strings for equality: whether they hold
/// the same text.
pub fn eq(one: &[u8], two: &[u8]) -> (r: bool)
    ensures
        r == same_text(one@, two@),
{
    let n1 = text_end(one);
    let n2 = text_end(two);
    if n1 != n2 {
        assert(text_of(one@).len() != text_of(two@).len());
        return false;
    }
    let mut i: usize = 0;
    while i < n1
        invariant
            n1 == n2,
            n1 <= one@.len(),
            n2 <= two@.len(),
            text_of(one@) == one@.take(n1 as int),
            text_of(two@) == two@.take(n2 as int),
            i <= n1,
            forall|k: int| 0 <= k < i ==> one@[k] == two@[k],
        decreases n1 - i,
    {
        if one[i] != two[i] {
            assert(text_of(one@)[i as int] != text_of(two@)[i as int]);
            return false;
        }
        i = i + 1;
    }
    assert(text_of(one@) =~= text_of(two@));
    true
}

/// The text shown when the bytes are not UTF-8.
pub open spec fn invalid_bytes_text() -> Seq<char> {
    "<Invalid bytes>"@
}

/// The text before a zero byte of valid UTF-8 is valid UTF-8.
proof fn lemma_text_valid(src: Seq<u8>, e: int)
    requires
        valid_utf8(src),
        is_text_end(src, e),
    ensures
        valid_utf8(src.take(e)),
{
    if e < src.len() {
        vstd::utf8::is_char_boundary_iff_not_is_continuation_byte(src, e);
    } else {
        vstd::utf8::is_char_boundary_start_end_of_seq(src);
    }
    vstd::utf8::valid_utf8_split(src, e);
    assert(src.subrange(0, e) =~= src.take(e));
}

/// The text of a zero-padded byte string, for logs: its text decoded,
/// or `<Invalid bytes>` when the bytes are not UTF-8.
pub fn to_str(src: &[u8]) -> (r: String)
    ensures
        valid_utf8(src@) ==> valid_utf8(text_of(src@)) && r@ == decode_utf8(text_of(src@)),
        !valid_utf8(src@) ==> r@ == invalid_bytes_text(),
{
    let e = text_end(src);
    proof {
        reveal_strlit("<Invalid bytes>");
    }
    match utf8_to_string(src) {
        Ok(_) => {
            proof {
                lemma_text_valid(src@, e as int);
            }
            let text = &src[0..e];
            assert(text@ =~= src@.take(e as int));
            match utf8_to_string(text) {
                Ok(s) => s,
                Err(_) => String::from_str("<Invalid bytes>"),
            }
        },
        Err(_) => String::from_str("<Invalid bytes>"),
    }
}

/// Comparing zero-padded text does not depend on the order of the two
/// strings, and every string holds the same text as itself.
pub proof fn lemma_same_text_symmetric(one: Seq<u8>, two: Seq<u8>)
    ensures
        same_text(one, two) == same_text(two, one),
        same_text(one, one),
{
}

/// Text without zero bytes, copied into a longer zero-filled field, is
/// read back as itself.
pub proof fn lemma_padded_text(src: Seq<u8>, n: nat)
    requires
        src.len() < n,
        forall|i: int| 0 <= i < src.len() ==> src[i] != 0,
    ensures
        text_of(padded(src, n)) == src,
{
    let p = padded(src, n);
    assert(p[src.len() as int] == 0);
    assert(is_text_end(p, src.len() as int));
    lemma_text_len_is(p, src.len() as int);
    assert(p.take(src.len() as int) =~= src);
}

} // verus!
