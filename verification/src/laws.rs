//! Laws that relate the parts of the library to each other.

use crate::chars::{digit, lemma_run_end_is, number, run_end, CharClass};
use crate::comment::{
    lemma_least_first, line_ranges_of, number_at, range_at, ranges_after, well_formed, CommentView,
};
use crate::config::{outcome, parsed, read_from, token_at, with_space, ConfigView};
use crate::lines::{excerpt, lines_of};
use crate::notice::{has_interpreter_line, has_notice_at};
use crate::scope::{indent_of, is_scope, lemma_nearest_differ, lemma_scopes_among, scope_lines};
use crate::text::TextView;
use vstd::prelude::*;

verus! {

/// A snippet of a whole file is one body that ends at the last line of the
/// file. It starts at line 1, unless the options let the copyright notice
/// go and the file starts with it: then at line 7, or at line 9 where an
/// interpreter line and an empty line stand before the notice.
pub proof fn law_whole_file(comment: CommentView, content: Seq<char>)
    requires
        comment.line_ranges is None,
        comment.fits(content),
    ensures
        comment.resolved(content).bodies.len() == 1,
        comment.resolved(content).bodies[0].2 == lines_of(content).len(),
        comment.resolved(content).bodies[0].1 == if comment.config.keep_copyright_comment {
            1int
        } else if has_notice_at(lines_of(content), 0) {
            7int
        } else if has_interpreter_line(lines_of(content)) && has_notice_at(lines_of(content), 2) {
            9int
        } else {
            1int
        },
        comment.resolved(content).bodies[0].0 == excerpt(
            lines_of(content),
            comment.resolved(content).bodies[0].1 as int,
            lines_of(content).len() as int,
        ),
{
}

/// The excerpt of one line that the file has is that line.
pub proof fn law_excerpt_of_one_line(lines: Seq<Seq<char>>, n: int)
    requires
        1 <= n <= lines.len(),
    ensures
        excerpt(lines, n, n) == lines[n - 1],
{
    assert(lines.subrange(n - 1, n).len() == 1);
    assert(lines.subrange(n - 1, n)[0] == lines[n - 1]);
}

/// A line list that is one number stands for the range from that
/// line to itself.
pub proof fn law_single_number(numeral: Seq<char>)
    requires
        numeral.len() > 0,
        forall|i: int| 0 <= i < numeral.len() ==> digit(#[trigger] numeral[i]),
        number(numeral) <= u32::MAX,
    ensures
        line_ranges_of(numeral) == Some(
            (seq![(number(numeral) as u32, number(numeral) as u32)], numeral.len() as int),
        ),
{
    let end = numeral.len() as int;
    assert forall|i: int| 0 <= i < end implies CharClass::Digit.has(#[trigger] numeral[i]) by {
        assert(digit(numeral[i]));
    }
    lemma_run_end_is(numeral, 0, CharClass::Digit, end);
    assert(numeral.subrange(0, end) =~= numeral);
    assert(number_at(numeral, 0) == Some((number(numeral) as u32, end)));
    assert(range_at(numeral, 0) == Some(
        ((number(numeral) as u32, number(numeral) as u32), end),
    ));
    assert(ranges_after(numeral, end) == (Seq::<(u32, u32)>::empty(), end));
    assert(seq![(number(numeral) as u32, number(numeral) as u32)] + Seq::<(u32, u32)>::empty()
        =~= seq![(number(numeral) as u32, number(numeral) as u32)]);
}

/// The snippet of the one line `n` of a file that has it is one body: that
/// line, from `n` to `n`.
pub proof fn law_single_line(comment: CommentView, content: Seq<char>, n: u32)
    requires
        comment.line_ranges == Some(seq![(n, n)]),
        1 <= n <= lines_of(content).len(),
    ensures
        comment.resolved(content).bodies == seq![(lines_of(content)[n - 1], n, n)],
{
    law_excerpt_of_one_line(lines_of(content), n as int);
    assert(comment.resolved(content).bodies =~= seq![(lines_of(content)[n - 1], n, n)]);
}

/// A snippet has one body for each of its ranges, in the order of the
/// ranges, each with the bounds of its range and the text of its lines. The
/// scope lines are those around one line: the smallest of the first lines
/// of the ranges.
pub proof fn law_one_body_for_each_range(comment: CommentView, content: Seq<char>)
    requires
        comment.line_ranges is Some,
        comment.line_ranges->0.len() > 0,
    ensures
        comment.resolved(content).bodies.len() == comment.line_ranges->0.len(),
        forall|i: int|
            0 <= i < comment.line_ranges->0.len() ==> {
                let body = #[trigger] comment.resolved(content).bodies[i];
                let range = comment.line_ranges->0[i];
                &&& body.1 == range.0
                &&& body.2 == range.1
                &&& body.0 == excerpt(lines_of(content), range.0 as int, range.1 as int)
            },
        forall|i: int|
            0 <= i < comment.line_ranges->0.len() ==> comment.first_line(lines_of(content)) <= (
            #[trigger] comment.line_ranges->0[i]).0,
        exists|i: int|
            0 <= i < comment.line_ranges->0.len() && comment.first_line(lines_of(content)) == (
            #[trigger] comment.line_ranges->0[i]).0,
        !comment.config.no_scopes ==> comment.resolved(content).scopes == scope_lines(
            lines_of(content),
            comment.first_line(lines_of(content)),
        ),
        comment.config.no_scopes ==> comment.resolved(content).scopes.len() == 0,
{
    let ranges = comment.line_ranges->0;
    lemma_least_first(ranges, ranges.len() as int);
}

/// Every scope line is indented less than the first line of the snippet,
/// and no two scope lines are indented alike. The scope lines stand above
/// the snippet, in ascending order.
pub proof fn law_scope_indentation(lines: Seq<Seq<char>>, first: int)
    requires
        1 <= first <= lines.len(),
        first <= u32::MAX,
    ensures
        forall|n: int|
            0 <= n < scope_lines(lines, first).len() ==> indent_of(
                (#[trigger] scope_lines(lines, first)[n]).1,
            ) < indent_of(lines[first - 1]),
        forall|m: int, n: int|
            0 <= m < n < scope_lines(lines, first).len() ==> indent_of(
                (#[trigger] scope_lines(lines, first)[m]).1,
            ) != indent_of((#[trigger] scope_lines(lines, first)[n]).1),
        forall|n: int|
            0 <= n < scope_lines(lines, first).len() ==> 1 <= (#[trigger] scope_lines(
                lines,
                first,
            )[n]).0 < first,
        forall|m: int, n: int|
            0 <= m < n < scope_lines(lines, first).len() ==> (#[trigger] scope_lines(
                lines,
                first,
            )[m]).0 < (#[trigger] scope_lines(lines, first)[n]).0,
{
    let scopes = scope_lines(lines, first);
    lemma_scopes_among(lines, first - 1, first - 1);
    assert forall|m: int, n: int| 0 <= m < n < scopes.len() implies indent_of(
        (#[trigger] scopes[m]).1,
    ) != indent_of((#[trigger] scopes[n]).1) by {
        let i = scopes[m].0 - 1;
        let j = scopes[n].0 - 1;
        assert(is_scope(lines, first - 1, i));
        assert(is_scope(lines, first - 1, j));
        lemma_nearest_differ(lines, first - 1, i, j);
    }
    assert forall|n: int| 0 <= n < scopes.len() implies indent_of((#[trigger] scopes[n]).1)
        < indent_of(lines[first - 1]) by {
        assert(is_scope(lines, first - 1, scopes[n].0 - 1));
    }
}

impl TextView {
    /// The lines of interest stand in ascending order: no interval ends
    /// before it starts, and from one interval to the next both the first
    /// and the last line grow.
    pub open spec fn ascending(self) -> bool {
        &&& forall|i: int|
            0 <= i < self.intervals().len() ==> (#[trigger] self.intervals()[i]).0
                <= self.intervals()[i].1
        &&& forall|i: int, j: int|
            0 <= i < j < self.intervals().len() ==> (#[trigger] self.intervals()[i]).0 < (
            #[trigger] self.intervals()[j]).0 && self.intervals()[i].1 < self.intervals()[j].1
    }
}

/// The table of jumps has one jump for each line of interest: for each
/// scope line and for each body. Where the lines of interest stand in
/// ascending order, the jumps do too, in both of their numbers.
pub proof fn law_line_map(text: TextView)
    ensures
        text.line_map().len() == text.scopes.len() + text.bodies.len(),
        text.ascending() ==> forall|i: int, j: int|
            0 <= i < j < text.line_map().len() ==> (#[trigger] text.line_map()[i]).at < (
            #[trigger] text.line_map()[j]).at && text.line_map()[i].to < text.line_map()[j].to,
{
    let intervals = text.intervals();
    let map = text.line_map();
    if text.ascending() {
        assert forall|i: int, j: int| 0 <= i < j < map.len() implies (#[trigger] map[i]).at < (
        #[trigger] map[j]).at && map[i].to < map[j].to by {
            assert(intervals[i].0 < intervals[j].0);
            assert(intervals[0].0 <= intervals[0].1);
            if j > 1 {
                assert(intervals[0].1 < intervals[j - 1].1);
            }
            if i > 0 {
                assert(intervals[i - 1].1 < intervals[j - 1].1);
            }
        }
    }
}

/// Where the ranges of a snippet are well formed and stand in ascending
/// order without overlap, the lines of interest of the snippet stand in
/// ascending order: the scope lines first, then the bodies.
pub proof fn law_resolved_ascending(comment: CommentView, content: Seq<char>)
    requires
        comment.fits(content),
        comment.line_ranges matches Some(ranges) ==> ranges.len() > 0 && well_formed(ranges)
            && forall|i: int, j: int|
            0 <= i < j < ranges.len() ==> (#[trigger] ranges[i]).1 < (#[trigger] ranges[j]).0,
    ensures
        comment.resolved(content).ascending(),
{
    let lines = lines_of(content);
    let text = comment.resolved(content);
    let intervals = text.intervals();
    let first = comment.first_line(lines);
    let scopes = text.scopes;
    if let Some(ranges) = comment.line_ranges {
        lemma_least_first(ranges, ranges.len() as int);
    }
    if scopes.len() > 0 {
        law_scope_indentation(lines, first);
    }
    assert forall|i: int| 0 <= i < intervals.len() implies (#[trigger] intervals[i]).0
        <= intervals[i].1 by {
        if i >= scopes.len() {
            if let Some(ranges) = comment.line_ranges {
                assert(ranges[i - scopes.len()].0 <= ranges[i - scopes.len()].1);
            }
        }
    }
    assert forall|i: int, j: int| 0 <= i < j < intervals.len() implies (
    #[trigger] intervals[i]).0 < (#[trigger] intervals[j]).0 && intervals[i].1
        < intervals[j].1 by {
        if j < scopes.len() {
            assert(scopes[i].0 < scopes[j].0);
        } else if i < scopes.len() {
            assert(scopes[i].0 < first);
            let b = text.bodies[j - scopes.len()];
            if let Some(ranges) = comment.line_ranges {
                assert(first <= ranges[j - scopes.len()].0);
                assert(ranges[j - scopes.len()].0 <= ranges[j - scopes.len()].1);
            }
        } else {
            let ranges = comment.line_ranges->0;
            let a = i - scopes.len();
            let b = j - scopes.len();
            assert(ranges[a].1 < ranges[b].0);
            assert(ranges[a].0 <= ranges[a].1);
            assert(ranges[b].0 <= ranges[b].1);
        }
    }
}

/// The reading of `s` that starts at `from` comes to `pos` as the place
/// where a token must start: every token before `pos` is known and is
/// followed by white space.
pub open spec fn reads_to(s: Seq<char>, from: int, pos: int) -> bool
    decreases s.len() - from,
{
    from == pos || match token_at(s, from) {
        Some((token, end)) => {
            let next = run_end(s, end, CharClass::Space);
            token.option() is Ok && end < next < s.len() && from < next && reads_to(s, next, pos)
        },
        None => false,
    }
}

/// The text at `pos` is no token that the grammar knows: no form of token
/// fits there, or one does and something other than white space follows it.
pub open spec fn is_unknown_at(s: Seq<char>, pos: int) -> bool {
    match token_at(s, pos) {
        None => true,
        Some((token, end)) => token.option() is Ok && end < s.len() && !CharClass::Space.has(
            s[end],
        ),
    }
}

/// One unknown token voids the reading, whatever was read before it.
pub proof fn lemma_unknown_token(s: Seq<char>, from: int, pos: int, config: ConfigView)
    requires
        0 <= from <= pos < s.len(),
        reads_to(s, from, pos),
        is_unknown_at(s, pos),
    ensures
        read_from(s, from, config) is Unrecognized,
    decreases s.len() - from,
{
    if from == pos {
        if let Some((token, end)) = token_at(s, pos) {
            assert(run_end(s, end, CharClass::Space) == end);
        }
    } else {
        let (token, end) = token_at(s, from)->0;
        let next = run_end(s, end, CharClass::Space);
        lemma_reads_to_order(s, next, pos);
        lemma_unknown_token(s, next, pos, token.option()->Ok_0.applied(config));
    }
}

/// A reading only comes to places at or after its start.
pub proof fn lemma_reads_to_order(s: Seq<char>, from: int, pos: int)
    requires
        reads_to(s, from, pos),
    ensures
        from <= pos,
    decreases s.len() - from,
{
    if from != pos {
        let (token, end) = token_at(s, from)->0;
        lemma_reads_to_order(s, run_end(s, end, CharClass::Space), pos);
    }
}

/// A single unknown token anywhere in an option string makes the string
/// stand for the default configuration. The string is `s` with its leading
/// space, which is put before it where it has none; `pos` is any place to
/// which the reading of that string comes, and what stands there is no
/// token that the grammar knows.
pub proof fn law_unknown_token_gives_default(s: Seq<char>, pos: int)
    requires
        1 <= pos < with_space(s).len(),
        reads_to(with_space(s), 1, pos),
        is_unknown_at(with_space(s), pos),
    ensures
        outcome(s) is Unrecognized,
        parsed(s) == ConfigView::default_config(),
{
    lemma_unknown_token(with_space(s), 1, pos, ConfigView::default_config());
}

/// The first jump is taken on the line before the first line of interest
/// and leads to that same line: it sets the counter and passes over nothing
/// that could be marked.
pub proof fn law_first_jump(text: TextView)
    requires
        text.has_lines(),
    ensures
        text.line_map()[0].at == text.intervals()[0].0 - 1,
        text.line_map()[0].to == text.intervals()[0].0 - 1,
        text.intervals()[0].0 == if text.scopes.len() > 0 {
            text.scopes[0].0
        } else {
            text.bodies[0].1
        },
{
}

} // verus!
