//! Characters and ASCII case folding.
//!
//! Every naming policy of this crate is defined over sequences of characters.
//! The case transforms are deliberately ASCII-only: a variant identifier is
//! folded letter by letter, and characters outside `a..z` / `A..Z` are left
//! untouched.

use vstd::prelude::*;

verus! {

/// True of the ASCII lowercase letters `a..z`.
pub open spec fn is_ascii_lower(c: char) -> bool {
    'a' <= c && c <= 'z'
}

/// True of the ASCII uppercase letters `A..Z`.
pub open spec fn is_ascii_upper(c: char) -> bool {
    'A' <= c && c <= 'Z'
}

/// ASCII uppercase fold of one character; anything but a lowercase letter is
/// unchanged.
pub open spec fn upper_char(c: char) -> char {
    if is_ascii_lower(c) {
        ((c as u32) - 32) as char
    } else {
        c
    }
}

/// ASCII lowercase fold of one character; anything but an uppercase letter is
/// unchanged.
pub open spec fn lower_char(c: char) -> char {
    if is_ascii_upper(c) {
        ((c as u32) + 32) as char
    } else {
        c
    }
}

/// ASCII uppercase fold of a whole string.
pub open spec fn upper_chars(s: Seq<char>) -> Seq<char> {
    s.map_values(|c: char| upper_char(c))
}

/// ASCII lowercase fold of a whole string.
pub open spec fn lower_chars(s: Seq<char>) -> Seq<char> {
    s.map_values(|c: char| lower_char(c))
}

pub fn to_upper_char(c: char) -> (r: char)
    ensures
        r == upper_char(c),
{
    if 'a' <= c && c <= 'z' {
        ((c as u8) - 32) as char
    } else {
        c
    }
}

pub fn to_lower_char(c: char) -> (r: char)
    ensures
        r == lower_char(c),
{
    if 'A' <= c && c <= 'Z' {
        ((c as u8) + 32) as char
    } else {
        c
    }
}

/// Relies on String::push: appends exactly the given character.
#[verifier::external_body]
pub(crate) fn push_char(s: &mut String, c: char)
    ensures
        final(s)@ == old(s)@.push(c),
{
    s.push(c)
}

/// Character-by-character string equality.
pub fn str_eq(a: &str, b: &str) -> (r: bool)
    ensures
        r == (a@ == b@),
{
    let a_len = a.unicode_len();
    let b_len = b.unicode_len();
    if a_len != b_len {
        return false;
    }
    for i in 0..a_len
        invariant
            a_len == a@.len(),
            a_len == b@.len(),
            forall|j: int| 0 <= j < i ==> a@[j] == b@[j],
    {
        if a.get_char(i) != b.get_char(i) {
            return false;
        }
    }
    proof {
        assert(a@ =~= b@);
    }
    true
}

/// ASCII uppercase fold of a whole string, character by character.
pub fn to_upper_str(s: &str) -> (r: String)
    ensures
        r@ == upper_chars(s@),
{
    let len = s.unicode_len();
    let mut r = String::new();
    for i in 0..len
        invariant
            len == s@.len(),
            r@ == upper_chars(s@.subrange(0, i as int)),
    {
        push_char(&mut r, to_upper_char(s.get_char(i)));
        proof {
            assert(upper_chars(s@.subrange(0, i + 1)) =~= upper_chars(
                s@.subrange(0, i as int),
            ).push(upper_char(s@[i as int])));
        }
    }
    proof {
        assert(s@.subrange(0, len as int) =~= s@);
    }
    r
}

/// ASCII lowercase fold of a whole string, character by character.
pub fn to_lower_str(s: &str) -> (r: String)
    ensures
        r@ == lower_chars(s@),
{
    let len = s.unicode_len();
    let mut r = String::new();
    for i in 0..len
        invariant
            len == s@.len(),
            r@ == lower_chars(s@.subrange(0, i as int)),
    {
        push_char(&mut r, to_lower_char(s.get_char(i)));
        proof {
            assert(lower_chars(s@.subrange(0, i + 1)) =~= lower_chars(
                s@.subrange(0, i as int),
            ).push(lower_char(s@[i as int])));
        }
    }
    proof {
        assert(s@.subrange(0, len as int) =~= s@);
    }
    r
}

/// Folding a whole string twice is the same as folding it once.
pub proof fn lemma_fold_idempotent(s: Seq<char>)
    ensures
        upper_chars(upper_chars(s)) =~= upper_chars(s),
        lower_chars(lower_chars(s)) =~= lower_chars(s),
{
}

/// The lowercase fold of a whole string erases a prior fold in either
/// direction.
pub proof fn lemma_lower_absorbs(s: Seq<char>)
    ensures
        lower_chars(upper_chars(s)) =~= lower_chars(s),
        lower_chars(lower_chars(s)) =~= lower_chars(s),
{
}

} // verus!
