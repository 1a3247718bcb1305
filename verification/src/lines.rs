//! Splitting text content into its lines.
//!
//! Content is an ordered sequence of lines separated by `'\n'`. A trailing
//! newline closes the final line rather than opening an empty one, and empty
//! content has no lines at all.

use vstd::prelude::*;

verus! {

/// The segments of `s` between `'\n'` characters: always one segment more
/// than there are newlines, so a trailing newline contributes a final empty
/// segment and empty content consists of one empty segment.
pub open spec fn raw_segments(s: Seq<char>) -> Seq<Seq<char>>
    decreases s.len(),
{
    if s.len() == 0 {
        seq![Seq::<char>::empty()]
    } else if s.last() == '\n' {
        raw_segments(s.drop_last()).push(Seq::<char>::empty())
    } else {
        let rest = raw_segments(s.drop_last());
        rest.update(rest.len() - 1, rest.last().push(s.last()))
    }
}

/// There is always at least the one segment that is still open.
pub proof fn lemma_raw_segments_nonempty(s: Seq<char>)
    ensures
        raw_segments(s).len() >= 1,
    decreases s.len(),
{
    if s.len() != 0 {
        lemma_raw_segments_nonempty(s.drop_last());
    }
}

/// The lines of `s`: its newline-separated segments, except that the empty
/// segment left open by a trailing newline (or by empty content) is not a
/// line of its own.
pub open spec fn lines_of(s: Seq<char>) -> Seq<Seq<char>> {
    let raw = raw_segments(s);
    if raw.last().len() == 0 {
        raw.drop_last()
    } else {
        raw
    }
}

/// Splits content into its lines, in order.
pub fn split_lines(contents: &str) -> (lines: Vec<String>)
    ensures
        lines.deep_view() == lines_of(contents@),
{
    let n = contents.unicode_len();
    let mut lines: Vec<String> = Vec::new();
    let mut start: usize = 0;
    let mut i: usize = 0;
    proof {
        assert(contents@.subrange(0, 0) =~= Seq::<char>::empty());
        assert(raw_segments(Seq::<char>::empty()) =~= lines.deep_view().push(
            Seq::<char>::empty(),
        ));
    }
    while i < n
        invariant
            n == contents@.len(),
            start <= i <= n,
            raw_segments(contents@.subrange(0, i as int)) == lines.deep_view().push(
                contents@.subrange(start as int, i as int),
            ),
        decreases n - i,
    {
        let ghost p = contents@.subrange(0, i as int);
        let ghost c = contents@[i as int];
        proof {
            assert(contents@.subrange(0, i + 1).drop_last() =~= p);
            assert(contents@.subrange(0, i + 1).last() == c);
        }
        if contents.get_char(i) == '\n' {
            let seg = contents.substring_char(start, i);
            let ghost old_dv = lines.deep_view();
            lines.push(String::from_str(seg));
            proof {
                assert(lines.deep_view() =~~= old_dv.push(contents@.subrange(
                    start as int,
                    i as int,
                )));
                assert(raw_segments(contents@.subrange(0, i + 1)) == lines.deep_view().push(
                    Seq::<char>::empty(),
                ));
            }
            start = i + 1;
            i = i + 1;
            proof {
                assert(contents@.subrange(start as int, i as int) =~= Seq::<char>::empty());
            }
        } else {
            i = i + 1;
            proof {
                let rest = raw_segments(p);
                lemma_raw_segments_nonempty(p);
                assert(rest == lines.deep_view().push(contents@.subrange(start as int, i - 1)));
                assert(rest.update(rest.len() - 1, rest.last().push(c)) =~= lines.deep_view().push(
                    rest.last().push(c),
                ));
                assert(rest.last().push(c) =~= contents@.subrange(start as int, i as int));
            }
        }
    }
    proof {
        assert(contents@.subrange(0, n as int) =~= contents@);
        lemma_raw_segments_nonempty(contents@);
    }
    let ghost raw = raw_segments(contents@);
    if start < n {
        let seg = contents.substring_char(start, n);
        let ghost old_dv = lines.deep_view();
        lines.push(String::from_str(seg));
        proof {
            assert(raw.last() == contents@.subrange(start as int, n as int));
            assert(raw.last().len() > 0);
            assert(lines.deep_view() =~= old_dv.push(seg@));
            assert(lines.deep_view() =~= raw);
        }
    } else {
        proof {
            assert(contents@.subrange(start as int, n as int) =~= Seq::<char>::empty());
            assert(raw.last().len() == 0);
            assert(raw.drop_last() =~= lines.deep_view());
        }
    }
    lines
}

} // verus!
