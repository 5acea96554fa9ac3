//! Character classes and string comparison used by the lexer.

use vstd::prelude::*;

verus! {

/// Whether `c` counts as whitespace when source text is split into words.
pub uninterp spec fn is_space_char(c: char) -> bool;

/// Whether `c` counts as a letter when a word is classified as an identifier.
pub uninterp spec fn is_alpha_char(c: char) -> bool;

/// Relies on char::is_whitespace: true exactly on characters with the
/// Unicode White_Space property, a fixed function of the character.
#[verifier::external_body]
pub fn is_space(c: char) -> (r: bool)
    ensures
        r == is_space_char(c),
{
    c.is_whitespace()
}

/// Relies on char::is_alphabetic: true exactly on characters with the
/// Unicode Alphabetic property, a fixed function of the character.
#[verifier::external_body]
pub fn is_alpha(c: char) -> (r: bool)
    ensures
        r == is_alpha_char(c),
{
    c.is_alphabetic()
}

/// Character-by-character string equality, proved against the views.
pub fn str_eq(a: &str, b: &str) -> (r: bool)
    ensures
        r == (a@ == b@),
{
    let alen = a.unicode_len();
    let blen = b.unicode_len();
    if alen != blen {
        return false;
    }
    let mut i: usize = 0;
    while i < alen
        invariant
            a@.len() == alen,
            b@.len() == alen,
            i <= alen,
            forall|j: int| 0 <= j < i ==> a@[j] == b@[j],
        decreases alen - i,
    {
        if a.get_char(i) != b.get_char(i) {
            return false;
        }
        i += 1;
    }
    proof {
        assert(a@ =~= b@);
    }
    true
}

} // verus!
