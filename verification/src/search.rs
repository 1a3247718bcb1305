//! The search engine: a single pass over the content's lines that keeps the
//! ones matching the query, in their original order.

use vstd::prelude::*;
use crate::config::Config;
use crate::lines::lines_of;
use crate::lines::split_lines;
use crate::matching::folded;
use crate::matching::lemma_contains_empty_needle;
use crate::matching::line_contains;
use crate::matching::line_matches;

verus! {

/// The lines among `lines` that match the query under the case policy, kept
/// in their original order.
pub open spec fn matching_lines(
    lines: Seq<Seq<char>>,
    query: Seq<char>,
    case_sensitive: bool,
) -> Seq<Seq<char>>
    decreases lines.len(),
{
    if lines.len() == 0 {
        Seq::<Seq<char>>::empty()
    } else {
        let rest = matching_lines(lines.drop_last(), query, case_sensitive);
        if line_matches(lines.last(), query, case_sensitive) {
            rest.push(lines.last())
        } else {
            rest
        }
    }
}

/// What a search returns: the lines of the content that contain the query
/// under the case policy, in their original order.
pub open spec fn search_result(
    content: Seq<char>,
    query: Seq<char>,
    case_sensitive: bool,
) -> Seq<Seq<char>> {
    matching_lines(lines_of(content), query, case_sensitive)
}

/// One sequence of lines read in order from another, skipping any number of
/// entries but never reordering or repeating one.
pub open spec fn is_subsequence(sub: Seq<Seq<char>>, full: Seq<Seq<char>>) -> bool
    decreases full.len(),
{
    if sub.len() == 0 {
        true
    } else if full.len() == 0 {
        false
    } else {
        (sub.last() == full.last() && is_subsequence(sub.drop_last(), full.drop_last()))
            || is_subsequence(sub, full.drop_last())
    }
}

/// Completeness: no qualifying line is omitted — every line that matches is
/// somewhere in the selection.
pub proof fn lemma_matching_lines_complete(
    lines: Seq<Seq<char>>,
    query: Seq<char>,
    case_sensitive: bool,
    j: int,
)
    requires
        0 <= j < lines.len(),
        line_matches(lines[j], query, case_sensitive),
    ensures
        matching_lines(lines, query, case_sensitive).contains(lines[j]),
    decreases lines.len(),
{
    let result = matching_lines(lines, query, case_sensitive);
    let rest = matching_lines(lines.drop_last(), query, case_sensitive);
    if j == lines.len() - 1 {
        assert(result == rest.push(lines[j]));
        assert(result[rest.len() as int] == lines[j]);
    } else {
        assert(lines.drop_last()[j] == lines[j]);
        lemma_matching_lines_complete(lines.drop_last(), query, case_sensitive, j);
        let k = choose|k: int| 0 <= k < rest.len() && rest[k] == lines[j];
        if line_matches(lines.last(), query, case_sensitive) {
            assert(result[k] == lines[j]);
        }
    }
}

/// Soundness: every selected line matches the query and is one of the
/// content's lines.
pub proof fn lemma_matching_lines_sound(
    lines: Seq<Seq<char>>,
    query: Seq<char>,
    case_sensitive: bool,
    k: int,
)
    requires
        0 <= k < matching_lines(lines, query, case_sensitive).len(),
    ensures
        line_matches(matching_lines(lines, query, case_sensitive)[k], query, case_sensitive),
        lines.contains(matching_lines(lines, query, case_sensitive)[k]),
    decreases lines.len(),
{
    let result = matching_lines(lines, query, case_sensitive);
    let rest = matching_lines(lines.drop_last(), query, case_sensitive);
    if line_matches(lines.last(), query, case_sensitive) && k == rest.len() {
        assert(result[k] == lines.last());
        assert(lines[lines.len() - 1] == lines.last());
    } else {
        lemma_matching_lines_sound(lines.drop_last(), query, case_sensitive, k);
        assert(result[k] == rest[k]);
        let j = choose|j: int| 0 <= j < lines.drop_last().len() && lines.drop_last()[j] == rest[k];
        assert(lines[j] == rest[k]);
    }
}

/// Order: the selection is a subsequence of the lines it was drawn from, so
/// matching lines keep their original relative order and no physical line
/// is selected twice.
pub proof fn lemma_matching_lines_subsequence(
    lines: Seq<Seq<char>>,
    query: Seq<char>,
    case_sensitive: bool,
)
    ensures
        is_subsequence(matching_lines(lines, query, case_sensitive), lines),
    decreases lines.len(),
{
    if lines.len() != 0 {
        lemma_matching_lines_subsequence(lines.drop_last(), query, case_sensitive);
        let rest = matching_lines(lines.drop_last(), query, case_sensitive);
        if line_matches(lines.last(), query, case_sensitive) {
            let result = rest.push(lines.last());
            assert(result.drop_last() =~= rest);
        }
    }
}

/// With an empty query every line matches, so the selection is the whole
/// sequence of lines, in order.
pub proof fn lemma_matching_lines_empty_query(
    lines: Seq<Seq<char>>,
    query: Seq<char>,
    case_sensitive: bool,
)
    requires
        query.len() == 0,
    ensures
        matching_lines(lines, query, case_sensitive) == lines,
    decreases lines.len(),
{
    if lines.len() == 0 {
        assert(matching_lines(lines, query, case_sensitive) =~= lines);
    } else {
        lemma_matching_lines_empty_query(lines.drop_last(), query, case_sensitive);
        assert(folded(query, case_sensitive).len() == 0);
        lemma_contains_empty_needle(
            folded(lines.last(), case_sensitive),
            folded(query, case_sensitive),
        );
        assert(lines.drop_last().push(lines.last()) =~= lines);
    }
}

/// Runs the search for the resolved request over the given content. Always
/// succeeds: content without matches yields an empty result.
pub fn search(config: &Config, contents: &str) -> (matches: Vec<String>)
    ensures
        matches.deep_view() == search_result(contents@, config.query@, config.case_sensitive),
{
    let lines = split_lines(contents);
    let ghost all = lines.deep_view();
    let mut matches: Vec<String> = Vec::new();
    let n = lines.len();
    let mut i: usize = 0;
    proof {
        assert(all.subrange(0, 0) =~= Seq::<Seq<char>>::empty());
    }
    while i < n
        invariant
            n == lines.len(),
            all == lines.deep_view(),
            i <= n,
            matches.deep_view() == matching_lines(
                all.subrange(0, i as int),
                config.query@,
                config.case_sensitive,
            ),
        decreases n - i,
    {
        proof {
            assert(all.subrange(0, i + 1).drop_last() =~= all.subrange(0, i as int));
            assert(all.subrange(0, i + 1).last() == all[i as int]);
            assert(lines@[i as int]@ == all[i as int]);
        }
        if line_contains(lines[i].as_str(), config.query.as_str(), config.case_sensitive) {
            let ghost old_dv = matches.deep_view();
            matches.push(lines[i].clone());
            proof {
                assert(matches.deep_view() =~~= old_dv.push(all[i as int]));
            }
        }
        i = i + 1;
    }
    proof {
        assert(all.subrange(0, n as int) =~= all);
    }
    matches
}

} // verus!
