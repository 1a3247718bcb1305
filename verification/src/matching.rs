//! The match predicate of the search engine: contiguous substring
//! containment of the query in a line, exactly or ignoring ASCII case.

use vstd::prelude::*;
use crate::casing::lower_char;
use crate::casing::lower_seq;
use crate::casing::to_lower_char;

verus! {

/// Text as it is compared under the given case policy: unchanged when the
/// search is case-sensitive, folded to ASCII lowercase when it is not.
pub open spec fn folded(s: Seq<char>, case_sensitive: bool) -> Seq<char> {
    if case_sensitive {
        s
    } else {
        lower_seq(s)
    }
}

/// `needle` occurs in `hay` as a contiguous run starting at position `i`.
pub open spec fn occurs_at(hay: Seq<char>, needle: Seq<char>, i: int) -> bool {
    &&& 0 <= i
    &&& i + needle.len() <= hay.len()
    &&& hay.subrange(i, i + needle.len()) == needle
}

/// `needle` occurs somewhere in `hay` as a contiguous substring.
pub open spec fn contains_seq(hay: Seq<char>, needle: Seq<char>) -> bool {
    exists|i: int| occurs_at(hay, needle, i)
}

/// The match predicate: the line contains the query as a contiguous
/// substring, both sides folded according to the case policy.
pub open spec fn line_matches(line: Seq<char>, query: Seq<char>, case_sensitive: bool) -> bool {
    contains_seq(folded(line, case_sensitive), folded(query, case_sensitive))
}

/// An empty needle occurs in every haystack.
pub proof fn lemma_contains_empty_needle(hay: Seq<char>, needle: Seq<char>)
    requires
        needle.len() == 0,
    ensures
        contains_seq(hay, needle),
{
    assert(occurs_at(hay, needle, 0)) by {
        assert(hay.subrange(0, 0) =~= needle);
    }
}

/// Containment survives folding to lowercase: wherever the needle occurs in
/// the haystack, its lowercase image occurs in the haystack's.
pub proof fn lemma_contains_lowered(hay: Seq<char>, needle: Seq<char>)
    requires
        contains_seq(hay, needle),
    ensures
        contains_seq(lower_seq(hay), lower_seq(needle)),
{
    let i = choose|i: int| occurs_at(hay, needle, i);
    let m = needle.len() as int;
    assert(occurs_at(lower_seq(hay), lower_seq(needle), i)) by {
        assert forall|k: int| 0 <= k < m implies lower_seq(hay)[i + k] == lower_seq(needle)[k] by {
            assert(hay.subrange(i, i + m)[k] == needle[k]);
        }
        assert(lower_seq(hay).subrange(i, i + m) =~= lower_seq(needle));
    }
}

/// Compares one character of the line with one of the query under the case
/// policy.
fn chars_match(a: char, b: char, case_sensitive: bool) -> (r: bool)
    ensures
        r == if case_sensitive {
            a == b
        } else {
            lower_char(a) == lower_char(b)
        },
{
    if case_sensitive {
        a == b
    } else {
        to_lower_char(a) == to_lower_char(b)
    }
}

/// Decides whether the query occurs in the line starting at position `at`,
/// under the case policy.
fn occurs_here(line: &str, query: &str, at: usize, case_sensitive: bool) -> (r: bool)
    requires
        at + query@.len() <= line@.len(),
    ensures
        r == occurs_at(folded(line@, case_sensitive), folded(query@, case_sensitive), at as int),
{
    let ghost hay = folded(line@, case_sensitive);
    let ghost needle = folded(query@, case_sensitive);
    let n = line.unicode_len();
    let m = query.unicode_len();
    let mut k: usize = 0;
    while k < m
        invariant
            n == line@.len(),
            m == query@.len(),
            at + m <= n,
            k <= m,
            hay == folded(line@, case_sensitive),
            needle == folded(query@, case_sensitive),
            forall|j: int| 0 <= j < k ==> hay[at + j] == needle[j],
        decreases m - k,
    {
        if !chars_match(line.get_char(at + k), query.get_char(k), case_sensitive) {
            assert(hay[at + k] != needle[k as int]);
            assert(!occurs_at(hay, needle, at as int)) by {
                if occurs_at(hay, needle, at as int) {
                    assert(hay.subrange(at as int, at + needle.len())[k as int] == hay[at + k]);
                }
            }
            return false;
        }
        k = k + 1;
    }
    assert(occurs_at(hay, needle, at as int)) by {
        assert(hay.subrange(at as int, at + needle.len()) =~= needle);
    }
    true
}

/// Decides whether the line contains the query as a contiguous substring
/// under the case policy. An empty query is contained in every line.
pub fn line_contains(line: &str, query: &str, case_sensitive: bool) -> (r: bool)
    ensures
        r == line_matches(line@, query@, case_sensitive),
{
    let ghost hay = folded(line@, case_sensitive);
    let ghost needle = folded(query@, case_sensitive);
    let n = line.unicode_len();
    let m = query.unicode_len();
    if m > n {
        assert(!contains_seq(hay, needle));
        return false;
    }
    if m == 0 {
        assert(occurs_at(hay, needle, 0)) by {
            assert(hay.subrange(0, 0) =~= needle);
        }
        return true;
    }
    let mut i: usize = 0;
    while i <= n - m
        invariant
            n == line@.len(),
            m == query@.len(),
            0 < m <= n,
            i <= n - m + 1,
            hay == folded(line@, case_sensitive),
            needle == folded(query@, case_sensitive),
            forall|j: int| 0 <= j < i ==> !occurs_at(hay, needle, j),
        decreases n - m + 1 - i,
    {
        if occurs_here(line, query, i, case_sensitive) {
            return true;
        }
        i = i + 1;
    }
    assert(forall|j: int| !occurs_at(hay, needle, j)) by {
        assert(forall|j: int| j > n - m ==> !occurs_at(hay, needle, j));
    }
    false
}

} // verus!
