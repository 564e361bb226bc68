//! Byte-level helpers shared by the tokenizer, parser, checker and formatter.
//!
//! Source text is handled as raw bytes throughout, so that checking is total
//! over arbitrary input. Spec-level byte strings are written as the UTF-8
//! encoding of string literals via [`str_bytes`].

use vstd::prelude::*;
use vstd::utf8::encode_utf8;

verus! {

/// The bytes of a string literal: the UTF-8 encoding of its characters.
/// Kept opaque so that its uses stay abstract; [`eq_str`] and [`push_str`]
/// are the bridges between it and executable byte slices.
#[verifier::opaque]
pub open spec fn str_bytes(s: &str) -> Seq<u8> {
    encode_utf8(s@)
}

/// The byte values the helpers below need by name.
pub const SPACE: u8 = 32;

pub const TAB: u8 = 9;

pub const LINE_FEED: u8 = 10;

pub const CARRIAGE_RETURN: u8 = 13;

pub const FORM_FEED: u8 = 12;

pub const COLON: u8 = 58;

pub const UPPER_A: u8 = 65;

pub const UPPER_Z: u8 = 90;

pub const CASE_GAP: u8 = 32;

/// Whitespace bytes that separate words: space, tab, line feed, carriage
/// return and form feed.
pub open spec fn is_space(b: u8) -> bool {
    b == SPACE || b == TAB || b == LINE_FEED || b == CARRIAGE_RETURN || b == FORM_FEED
}

#[verifier::when_used_as_spec(is_space)]
pub fn is_space_byte(b: u8) -> (r: bool)
    ensures
        r == is_space(b),
{
    b == SPACE || b == TAB || b == LINE_FEED || b == CARRIAGE_RETURN || b == FORM_FEED
}

/// ASCII lowercasing of a single byte.
pub open spec fn lower_byte(b: u8) -> u8 {
    if UPPER_A <= b && b <= UPPER_Z {
        (b + CASE_GAP) as u8
    } else {
        b
    }
}

#[verifier::when_used_as_spec(lower_byte)]
pub fn lower_byte_exec(b: u8) -> (r: u8)
    ensures
        r == lower_byte(b),
{
    if UPPER_A <= b && b <= UPPER_Z {
        b + CASE_GAP
    } else {
        b
    }
}

/// ASCII lowercasing of a byte string.
pub open spec fn lower(s: Seq<u8>) -> Seq<u8> {
    s.map_values(|b: u8| lower_byte(b))
}

/// Lowercased copy of a byte slice.
pub fn to_lower(v: &[u8]) -> (r: Vec<u8>)
    ensures
        r@ == lower(v@),
{
    let mut r: Vec<u8> = Vec::new();
    let mut i: usize = 0;
    while i < v.len()
        invariant
            i <= v@.len(),
            r@ =~= lower(v@).take(i as int),
        decreases v@.len() - i,
    {
        r.push(lower_byte_exec(v[i]));
        i = i + 1;
    }
    assert(r@ =~= lower(v@));
    r
}

/// Equality of two byte slices, decided at the view level.
pub fn bytes_eq(a: &[u8], b: &[u8]) -> (r: bool)
    ensures
        r == (a@ == b@),
{
    if a.len() != b.len() {
        return false;
    }
    let mut i: usize = 0;
    while i < a.len()
        invariant
            i <= a@.len(),
            a@.len() == b@.len(),
            forall|j: int| 0 <= j < i ==> a@[j] == b@[j],
        decreases a@.len() - i,
    {
        if a[i] != b[i] {
            assert(a@ != b@);
            return false;
        }
        i = i + 1;
    }
    assert(a@ =~= b@);
    true
}

/// Does a byte slice spell exactly the given string literal?
pub fn eq_str(a: &[u8], s: &str) -> (r: bool)
    ensures
        r == (a@ == str_bytes(s)),
{
    proof {
        reveal(str_bytes);
    }
    bytes_eq(a, s.as_bytes())
}

/// Append a byte slice to a growing buffer.
pub fn push_bytes(out: &mut Vec<u8>, s: &[u8])
    ensures
        final(out)@ == old(out)@ + s@,
{
    let mut i: usize = 0;
    while i < s.len()
        invariant
            i <= s@.len(),
            out@ =~= old(out)@ + s@.take(i as int),
        decreases s@.len() - i,
    {
        out.push(s[i]);
        i = i + 1;
    }
    assert(out@ =~= old(out)@ + s@);
}

/// Append the bytes of a string literal to a growing buffer.
pub fn push_str(out: &mut Vec<u8>, s: &str)
    ensures
        final(out)@ == old(out)@ + str_bytes(s),
{
    proof {
        reveal(str_bytes);
    }
    push_bytes(out, s.as_bytes());
}

/// Copy of the byte range `[start, end)` of a slice.
pub fn sub_bytes(v: &[u8], start: usize, end: usize) -> (r: Vec<u8>)
    requires
        start <= end <= v@.len(),
    ensures
        r@ == v@.subrange(start as int, end as int),
{
    let mut r: Vec<u8> = Vec::new();
    let mut i: usize = start;
    while i < end
        invariant
            start <= i <= end <= v@.len(),
            r@ =~= v@.subrange(start as int, i as int),
        decreases end - i,
    {
        r.push(v[i]);
        i = i + 1;
    }
    assert(r@ =~= v@.subrange(start as int, end as int));
    r
}

/// Saturating addition on `usize`.
pub open spec fn sat_add(a: int, b: int) -> int {
    if a + b > usize::MAX {
        usize::MAX as int
    } else {
        a + b
    }
}

pub fn sat_add_usize(a: usize, b: usize) -> (r: usize)
    ensures
        r == sat_add(a as int, b as int),
{
    if a <= usize::MAX - b {
        a + b
    } else {
        usize::MAX
    }
}

/// Saturating subtraction on `usize`.
pub open spec fn sat_sub(a: int, b: int) -> int {
    if a >= b {
        a - b
    } else {
        0
    }
}

pub fn sat_sub_usize(a: usize, b: usize) -> (r: usize)
    ensures
        r == sat_sub(a as int, b as int),
{
    if a >= b {
        a - b
    } else {
        0
    }
}

} // verus!
