//! Text helpers: UTF-8 conversion, string comparison and C-string scanning.
use vstd::prelude::*;
use vstd::utf8::{valid_utf8, decode_utf8};

verus! {

/// The text that lossy UTF-8 decoding of `b` yields (invalid sequences become U+FFFD).
pub uninterp spec fn utf8_lossy(b: Seq<u8>) -> Seq<char>;

/// `String::from_utf8_lossy`, made owned. The documentation promises that valid UTF-8 is
/// decoded unchanged; what replaces invalid sequences is left to the name `utf8_lossy`.
#[verifier::external_body]
pub(crate) fn string_from_utf8_lossy(b: &[u8]) -> (r: String)
    ensures
        r@ == utf8_lossy(b@),
        valid_utf8(b@) ==> r@ == decode_utf8(b@),
{
    String::from_utf8_lossy(b).into_owned()
}

/// `String::from_utf8`: succeeds exactly on valid UTF-8, and then holds its decoding.
#[verifier::external_body]
pub(crate) fn string_from_utf8(b: Vec<u8>) -> (r: Option<String>)
    ensures
        r is Some <==> valid_utf8(b@),
        r matches Some(s) ==> s@ == decode_utf8(b@),
{
    String::from_utf8(b).ok()
}

/// Are two strings equal?
pub fn str_eq(a: &str, b: &str) -> (r: bool)
    ensures
        r == (a@ == b@),
{
    let x = String::from_str(a);
    let y = String::from_str(b);
    x == y
}

/// The index of the first zero byte of `s` at or after `i`, or the length of `s`.
pub open spec fn cstr_end(s: Seq<u8>, i: int) -> int
    decreases s.len() - i,
{
    if i >= s.len() {
        s.len() as int
    } else if s[i] == 0 {
        i
    } else {
        cstr_end(s, i + 1)
    }
}

/// The end of a zero-terminated string lies between its start and the end of the buffer.
pub proof fn lemma_cstr_end_bounds(s: Seq<u8>, i: int)
    requires
        0 <= i,
    ensures
        i <= cstr_end(s, i) <= s.len() || (i > s.len() && cstr_end(s, i) == s.len()),
        cstr_end(s, i) < s.len() ==> s[cstr_end(s, i)] == 0,
    decreases s.len() - i,
{
    if i < s.len() && s[i] != 0 {
        lemma_cstr_end_bounds(s, i + 1);
    }
}

/// Scans `s` from `start` for the terminating zero byte.
pub fn find_cstr_end(s: &[u8], start: usize) -> (r: usize)
    requires
        start <= s@.len(),
    ensures
        r == cstr_end(s@, start as int),
        start <= r <= s@.len(),
{
    let mut end = start;
    while end < s.len() && s[end] != 0
        invariant
            start <= end <= s@.len(),
            cstr_end(s@, start as int) == cstr_end(s@, end as int),
        decreases s.len() - end,
    {
        end = end + 1;
    }
    end
}

} // verus!
