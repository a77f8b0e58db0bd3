//! The copyright notice that heads the newer files, and the line at which
//! a whole-file snippet starts because of it.
//!
//! The notice is five comment lines and the line after them. It stands at
//! the head of the file, or after an interpreter line and an empty line.

use crate::chars::{chars_of, run_end, scan, starts_at, CharClass};
use crate::lines::{lines_of, spans_of, Span};
use vstd::prelude::*;

verus! {

/// The text of the first line of the notice.
pub open spec fn title_text() -> Seq<char> {
    "lintrans - The linear transformation visualizer"@
}

/// The text of the second line of the notice, with both years.
pub open spec fn years_text() -> Seq<char> {
    "Copyright (C) 2021-2022 D. Dyson (DoctorDalek1963)"@
}

/// The text of the second line of the notice, with the later year alone.
pub open spec fn year_text() -> Seq<char> {
    "Copyright (C) 2022 D. Dyson (DoctorDalek1963)"@
}

/// The text of the fourth line of the notice.
pub open spec fn licence_text() -> Seq<char> {
    "This program is licensed under GNU GPLv3, available here:"@
}

/// The text of the fifth line of the notice.
pub open spec fn link_text() -> Seq<char> {
    "<https://www.gnu.org/licenses/gpl-3.0.html>"@
}

/// The interpreter line that may stand before the notice.
pub open spec fn interpreter_line() -> Seq<char> {
    "#!/usr/bin/env python"@
}

/// `line` is a comment that holds `text`: a `#`, white space, and `text`
/// to the end of the line.
pub open spec fn is_comment_with(line: Seq<char>, text: Seq<char>) -> bool {
    let from = run_end(line, 1, CharClass::White);
    line.len() > 0 && line[0] == '#' && from > 1 && line.subrange(from, line.len() as int) == text
}

/// `line` is empty or a lone `#`.
pub open spec fn is_blank_comment(line: Seq<char>) -> bool {
    line.len() == 0 || (line.len() == 1 && line[0] == '#')
}

/// The notice stands in `lines` from the line `k` on, counted from 0: its
/// five lines, and one more line after them.
pub open spec fn has_notice_at(lines: Seq<Seq<char>>, k: int) -> bool {
    &&& 0 <= k
    &&& k + 6 <= lines.len()
    &&& is_comment_with(lines[k], title_text())
    &&& (is_comment_with(lines[k + 1], years_text()) || is_comment_with(lines[k + 1], year_text()))
    &&& is_blank_comment(lines[k + 2])
    &&& is_comment_with(lines[k + 3], licence_text())
    &&& is_comment_with(lines[k + 4], link_text())
}

/// `lines` starts with the interpreter line and an empty line.
pub open spec fn has_interpreter_line(lines: Seq<Seq<char>>) -> bool {
    lines.len() >= 2 && lines[0] == interpreter_line() && lines[1].len() == 0
}

/// The number of the line, counted from 1, at which a snippet of the whole
/// file starts: 7 after a notice at the head of the file, 9 after an
/// interpreter line and a notice, else 1. With `keep` the notice stays and
/// the snippet starts at line 1.
pub open spec fn start_line(lines: Seq<Seq<char>>, keep: bool) -> int {
    if keep {
        1
    } else if has_notice_at(lines, 0) {
        7
    } else if has_interpreter_line(lines) && has_notice_at(lines, 2) {
        9
    } else {
        1
    }
}

/// The characters of the line at `span`.
fn line_chars(s: &Vec<char>, span: Span) -> (r: Vec<char>)
    requires
        span.start <= span.end <= s.len(),
    ensures
        r@ == s@.subrange(span.start as int, span.end as int),
{
    let mut line: Vec<char> = Vec::new();
    let mut k: usize = span.start;
    while k < span.end
        invariant
            span.start <= k <= span.end <= s.len(),
            line@ == s@.subrange(span.start as int, k as int),
        decreases span.end - k,
    {
        line.push(s[k]);
        assert(line@ =~= s@.subrange(span.start as int, k + 1));
        k += 1;
    }
    line
}

/// Tests whether `line` is a comment that holds `text`.
fn comment_holds(line: &Vec<char>, text: &str) -> (r: bool)
    ensures
        r == is_comment_with(line@, text@),
{
    if line.len() == 0 || line[0] != '#' {
        return false;
    }
    let from = scan(line, 1, CharClass::White);
    let n = chars_of(text).len();
    if from <= 1 || line.len() - from != n {
        return false;
    }
    starts_at(line, from, text)
}

/// Tests whether the notice stands in the file from the line `k` on.
fn notice_at(s: &Vec<char>, spans: &Vec<Span>, k: usize) -> (r: bool)
    requires
        spans_of(spans@, s@),
        k <= 2,
    ensures
        r == has_notice_at(lines_of(s@), k as int),
{
    if spans.len() < 6 || k > spans.len() - 6 {
        return false;
    }
    let first = line_chars(s, spans[k]);
    let second = line_chars(s, spans[k + 1]);
    let third = line_chars(s, spans[k + 2]);
    let fourth = line_chars(s, spans[k + 3]);
    let fifth = line_chars(s, spans[k + 4]);
    comment_holds(&first, "lintrans - The linear transformation visualizer") && (comment_holds(
        &second,
        "Copyright (C) 2021-2022 D. Dyson (DoctorDalek1963)",
    ) || comment_holds(&second, "Copyright (C) 2022 D. Dyson (DoctorDalek1963)")) && (third.len()
        == 0 || (third.len() == 1 && third[0] == '#')) && comment_holds(
        &fourth,
        "This program is licensed under GNU GPLv3, available here:",
    ) && comment_holds(&fifth, "<https://www.gnu.org/licenses/gpl-3.0.html>")
}

/// Tests whether the file starts with the interpreter line and an empty line.
fn interpreter_line_heads(s: &Vec<char>, spans: &Vec<Span>) -> (r: bool)
    requires
        spans_of(spans@, s@),
    ensures
        r == has_interpreter_line(lines_of(s@)),
{
    if spans.len() < 2 {
        return false;
    }
    let first = line_chars(s, spans[0]);
    let second = spans[1];
    let n = chars_of("#!/usr/bin/env python").len();
    proof {
        assert(first@.subrange(0, first@.len() as int) =~= first@);
    }
    first.len() == n && starts_at(&first, 0, "#!/usr/bin/env python") && second.start == second.end
}

/// Finds the line at which a snippet of the whole file starts.
pub fn find_start_line(s: &Vec<char>, spans: &Vec<Span>, keep: bool) -> (r: u32)
    requires
        spans_of(spans@, s@),
    ensures
        r as int == start_line(lines_of(s@), keep),
{
    if keep {
        1
    } else if notice_at(s, spans, 0) {
        7
    } else if interpreter_line_heads(s, spans) && notice_at(s, spans, 2) {
        9
    } else {
        1
    }
}

} // verus!
