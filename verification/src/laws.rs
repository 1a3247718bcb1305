//! The library's laws: properties of the search engine that hold for all
//! inputs, proved once over its specification.

use vstd::prelude::*;
use crate::casing::lemma_lower_seq_of_upper_seq;
use crate::casing::lower_seq;
use crate::casing::upper_seq;
use crate::lines::lines_of;
use crate::matching::contains_seq;
use crate::matching::lemma_contains_lowered;
use crate::matching::line_matches;
use crate::search::is_subsequence;
use crate::search::lemma_matching_lines_complete;
use crate::search::lemma_matching_lines_empty_query;
use crate::search::lemma_matching_lines_sound;
use crate::search::lemma_matching_lines_subsequence;
use crate::search::search_result;

verus! {

/// A line of the content in which the query occurs as a contiguous
/// substring is found by the case-sensitive search.
pub proof fn lemma_search_finds_line(content: Seq<char>, query: Seq<char>, j: int)
    requires
        0 <= j < lines_of(content).len(),
        contains_seq(lines_of(content)[j], query),
    ensures
        search_result(content, query, true).contains(lines_of(content)[j]),
{
    assert(line_matches(lines_of(content)[j], query, true));
    lemma_matching_lines_complete(lines_of(content), query, true, j);
}

/// The search result keeps the content's original line order: it is a
/// subsequence of the content's lines, and no physical line is reported
/// twice.
pub proof fn lemma_search_result_ordered(
    content: Seq<char>,
    query: Seq<char>,
    case_sensitive: bool,
)
    ensures
        is_subsequence(search_result(content, query, case_sensitive), lines_of(content)),
{
    lemma_matching_lines_subsequence(lines_of(content), query, case_sensitive);
}

/// A case-insensitive search for any case variant of the query — any text
/// with the same lowercase image — finds every line that the case-sensitive
/// search for the query finds.
pub proof fn lemma_case_insensitive_superset(
    content: Seq<char>,
    query: Seq<char>,
    variant: Seq<char>,
    l: Seq<char>,
)
    requires
        lower_seq(variant) == lower_seq(query),
        search_result(content, query, true).contains(l),
    ensures
        search_result(content, variant, false).contains(l),
{
    let lines = lines_of(content);
    let result = search_result(content, query, true);
    let k = choose|k: int| 0 <= k < result.len() && result[k] == l;
    lemma_matching_lines_sound(lines, query, true, k);
    assert(contains_seq(l, query));
    let j = choose|j: int| 0 <= j < lines.len() && lines[j] == l;
    lemma_contains_lowered(l, query);
    assert(line_matches(l, variant, false));
    lemma_matching_lines_complete(lines, variant, false, j);
}

/// In particular, uppercasing a query and searching case-insensitively
/// never finds fewer lines than the case-sensitive search for the original
/// query.
pub proof fn lemma_uppercased_query_superset(content: Seq<char>, query: Seq<char>, l: Seq<char>)
    requires
        search_result(content, query, true).contains(l),
    ensures
        search_result(content, upper_seq(query), false).contains(l),
{
    lemma_lower_seq_of_upper_seq(query);
    lemma_case_insensitive_superset(content, query, upper_seq(query), l);
}

/// The empty query matches every line: the search returns all of the
/// content's lines, in order, under either case policy.
pub proof fn lemma_empty_query_returns_all(content: Seq<char>, case_sensitive: bool)
    ensures
        search_result(content, Seq::<char>::empty(), case_sensitive) == lines_of(content),
{
    lemma_matching_lines_empty_query(lines_of(content), Seq::<char>::empty(), case_sensitive);
}

/// The engine is deterministic: its result is a function of the query, the
/// content and the case policy alone, so two searches over identical inputs
/// return identical results, in contents and order.
pub proof fn lemma_search_deterministic(
    first: Seq<Seq<char>>,
    second: Seq<Seq<char>>,
    content: Seq<char>,
    query: Seq<char>,
    case_sensitive: bool,
)
    requires
        first == search_result(content, query, case_sensitive),
        second == search_result(content, query, case_sensitive),
    ensures
        first == second,
{
}

} // verus!
