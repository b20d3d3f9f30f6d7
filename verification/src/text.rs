//! Strings as sequences of characters, and text held in NUL-terminated bytes.

use vstd::prelude::*;
use vstd::slice::slice_subrange;
use vstd::utf8::{decode_utf8, decode_utf8_encode_utf8, encode_utf8, valid_utf8};

verus! {

/// The characters of `s`, in order.
pub fn chars_of(s: &str) -> (r: Vec<char>)
    ensures
        r@ == s@,
{
    let mut r: Vec<char> = Vec::new();
    for c in it: s.chars()
        invariant
            it.seq() == s@,
            r@ == it.seq().take(it.index() as int),
    {
        r.push(c);
        assert(it.seq().take(it.index() + 1) =~= it.seq().take(it.index() as int).push(c));
    }
    assert(s@.take(s@.len() as int) =~= s@);
    r
}

/// Whether two strings hold the same characters.
pub fn same_text(a: &str, b: &str) -> (r: bool)
    ensures
        r == (a@ == b@),
{
    let x: Vec<char> = chars_of(a);
    let y: Vec<char> = chars_of(b);
    if x.len() != y.len() {
        return false;
    }
    let mut i: usize = 0;
    while i < x.len()
        invariant
            i <= x.len(),
            x.len() == y.len(),
            x@ == a@,
            y@ == b@,
            forall|j: int| 0 <= j < i ==> x@[j] == y@[j],
        decreases x.len() - i,
    {
        if x[i] != y[i] {
            return false;
        }
        i += 1;
    }
    assert(a@ =~= b@);
    true
}

/// Whether `s` begins with the characters of `prefix`.
pub fn starts_with(s: &str, prefix: &str) -> (r: bool)
    ensures
        r == prefix@.is_prefix_of(s@),
{
    let x: Vec<char> = chars_of(s);
    let y: Vec<char> = chars_of(prefix);
    if y.len() > x.len() {
        return false;
    }
    let mut i: usize = 0;
    while i < y.len()
        invariant
            i <= y.len() <= x.len(),
            x@ == s@,
            y@ == prefix@,
            forall|j: int| 0 <= j < i ==> x@[j] == y@[j],
        decreases y.len() - i,
    {
        if x[i] != y[i] {
            assert(s@.subrange(0, prefix@.len() as int)[i as int] != prefix@[i as int]);
            return false;
        }
        i += 1;
    }
    assert(s@.subrange(0, prefix@.len() as int) =~= prefix@);
    true
}

/// How many bytes of `bytes` stand before the first NUL: all of them where there is none.
pub open spec fn nul_index(bytes: Seq<u8>) -> nat
    decreases bytes.len(),
{
    if bytes.len() == 0 || bytes[0] == 0 {
        0
    } else {
        1 + nul_index(bytes.drop_first())
    }
}

/// `nul_index` is the only length that no NUL precedes and that a NUL, or the end, follows.
pub proof fn nul_index_is(bytes: Seq<u8>, n: nat)
    requires
        n <= bytes.len(),
        forall|i: int| 0 <= i < n ==> bytes[i] != 0,
        n < bytes.len() ==> bytes[n as int] == 0,
    ensures
        nul_index(bytes) == n,
    decreases bytes.len(),
{
    if n > 0 {
        nul_index_is(bytes.drop_first(), (n - 1) as nat);
    }
}

/// The text that NUL-terminated bytes hold, if it is valid UTF-8.
pub open spec fn nul_terminated_text(bytes: Seq<u8>) -> Option<Seq<char>> {
    let text = bytes.take(nul_index(bytes) as int);
    if valid_utf8(text) {
        Some(decode_utf8(text))
    } else {
        None
    }
}

/// Calls `std::str::from_utf8`: it succeeds exactly on valid UTF-8, and the string then holds
/// the characters that the bytes encode.
#[verifier::external_body]
pub(crate) fn from_utf8(bytes: &[u8]) -> (r: Option<&str>)
    ensures
        r is Some <==> valid_utf8(bytes@),
        r matches Some(s) ==> s@ == decode_utf8(bytes@),
{
    std::str::from_utf8(bytes).ok()
}

/// The text before the first NUL of `bytes`; `None` where it is not valid UTF-8.
pub fn text_before_nul(bytes: &[u8]) -> (r: Option<&str>)
    ensures
        r is Some <==> nul_terminated_text(bytes@) is Some,
        r matches Some(s) ==> nul_terminated_text(bytes@) == Some(s@),
        r matches Some(s) ==> {
            let text = encode_utf8(s@);
            &&& text.len() <= bytes@.len()
            &&& bytes@.take(text.len() as int) == text
            &&& !text.contains(0)
            &&& text.len() < bytes@.len() ==> bytes@[text.len() as int] == 0
        },
{
    let mut end: usize = 0;
    while end < bytes.len() && bytes[end] != 0
        invariant
            end <= bytes.len(),
            forall|i: int| 0 <= i < end ==> bytes@[i] != 0,
        decreases bytes.len() - end,
    {
        end += 1;
    }
    proof {
        nul_index_is(bytes@, end as nat);
        assert(bytes@.subrange(0, end as int) =~= bytes@.take(end as int));
        text_stands_before_the_nul(bytes@, end as nat);
    }
    from_utf8(slice_subrange(bytes, 0, end))
}

/// The text of NUL-terminated bytes is what is encoded before the first NUL, or in all of them
/// where there is none; there is no text where those bytes are not valid UTF-8.
pub proof fn text_stands_before_the_nul(bytes: Seq<u8>, n: nat)
    requires
        n <= bytes.len(),
        forall|i: int| 0 <= i < n ==> bytes[i] != 0,
        n < bytes.len() ==> bytes[n as int] == 0,
    ensures
        match nul_terminated_text(bytes) {
            Some(text) => encode_utf8(text) == bytes.take(n as int) && !encode_utf8(text).contains(
                0,
            ),
            None => !valid_utf8(bytes.take(n as int)),
        },
{
    nul_index_is(bytes, n);
    if valid_utf8(bytes.take(n as int)) {
        decode_utf8_encode_utf8(bytes.take(n as int));
    }
}

} // verus!
