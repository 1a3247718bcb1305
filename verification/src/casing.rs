//! ASCII case folding: the normalization applied to both the query and each
//! line before a case-insensitive comparison.

use vstd::prelude::*;

verus! {

/// The ASCII lowercase image of a single character: `'A'..='Z'` maps to
/// `'a'..='z'`, every other character is left unchanged.
pub open spec fn lower_char(c: char) -> char {
    if 'A' <= c && c <= 'Z' {
        ((c as u8) + 32) as char
    } else {
        c
    }
}

/// A sequence of characters folded to ASCII lowercase, character by character.
pub open spec fn lower_seq(s: Seq<char>) -> Seq<char> {
    Seq::new(s.len(), |i: int| lower_char(s[i]))
}

/// The ASCII uppercase image of a single character: `'a'..='z'` maps to
/// `'A'..='Z'`, every other character is left unchanged.
pub open spec fn upper_char(c: char) -> char {
    if 'a' <= c && c <= 'z' {
        ((c as u8) - 32) as char
    } else {
        c
    }
}

/// A sequence of characters folded to ASCII uppercase, character by character.
pub open spec fn upper_seq(s: Seq<char>) -> Seq<char> {
    Seq::new(s.len(), |i: int| upper_char(s[i]))
}

/// Uppercasing a character does not change its lowercase image: the two
/// folds identify exactly the same characters.
pub proof fn lemma_lower_char_of_upper_char(c: char)
    ensures
        lower_char(upper_char(c)) == lower_char(c),
{
}

/// Uppercasing a sequence does not change its lowercase image.
pub proof fn lemma_lower_seq_of_upper_seq(s: Seq<char>)
    ensures
        lower_seq(upper_seq(s)) == lower_seq(s),
{
    assert(lower_seq(upper_seq(s)) =~= lower_seq(s)) by {
        assert forall|i: int| 0 <= i < s.len() implies lower_char(upper_char(s[i])) == lower_char(
            s[i],
        ) by {
            lemma_lower_char_of_upper_char(s[i]);
        }
    }
}

/// Folds one character to ASCII lowercase.
pub fn to_lower_char(c: char) -> (r: char)
    ensures
        r == lower_char(c),
{
    if 'A' <= c && c <= 'Z' {
        ((c as u8) + 32) as char
    } else {
        c
    }
}

} // verus!
