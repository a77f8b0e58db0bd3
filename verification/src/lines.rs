//! The lines of a file, and the text of a range of them.

use crate::chars::{run_end, scan, CharClass};
use vstd::prelude::*;
use vstd::string::*;

verus! {

/// The end of the line that starts at `start`: the position of its line
/// feed, or of the carriage return before that line feed, or the end of
/// the text.
pub open spec fn line_end(s: Seq<char>, start: int) -> int {
    let feed = run_end(s, start, CharClass::Not('\n'));
    if start < feed < s.len() && s[feed - 1] == '\r' {
        feed - 1
    } else {
        feed
    }
}

/// The lines of `s` from the position `start` on, where a line starts.
pub open spec fn lines_from(s: Seq<char>, start: int) -> Seq<Seq<char>>
    decreases s.len() - start,
{
    let feed = run_end(s, start, CharClass::Not('\n'));
    if 0 <= start <= feed < s.len() {
        seq![s.subrange(start, line_end(s, start))] + lines_from(s, feed + 1)
    } else if 0 <= start < s.len() {
        seq![s.subrange(start, line_end(s, start))]
    } else {
        Seq::empty()
    }
}

/// The lines of `s`. A line ends at a line feed, or at a carriage return
/// and a line feed; neither belongs to the line. The last line needs no line
/// feed, and none follows a line feed that ends the text.
pub open spec fn lines_of(s: Seq<char>) -> Seq<Seq<char>> {
    lines_from(s, 0)
}

/// `parts` with `sep` between each two of them.
pub open spec fn joined(parts: Seq<Seq<char>>, sep: Seq<char>) -> Seq<char>
    decreases parts.len(),
{
    if parts.len() == 0 {
        Seq::empty()
    } else if parts.len() == 1 {
        parts[0]
    } else {
        joined(parts.drop_last(), sep) + sep + parts.last()
    }
}

/// The line feed that stands between the lines of an excerpt.
pub open spec fn line_feed() -> Seq<char> {
    "\n"@
}

/// The smaller of `a` and `b`.
pub open spec fn at_most(a: int, b: int) -> int {
    if a < b {
        a
    } else {
        b
    }
}

/// The text of the lines `first` to `last` of a file, both counted from 1
/// and both included, with a line feed between each two and none at the
/// end. Lines that the file does not have are left out.
pub open spec fn excerpt(lines: Seq<Seq<char>>, first: int, last: int) -> Seq<char> {
    let lo = at_most(first - 1, lines.len() as int);
    let hi = at_most(last, lines.len() as int);
    joined(lines.subrange(lo, hi), line_feed())
}

/// Where a line stands in the text that it was cut from.
#[derive(Clone, Copy, Debug, PartialEq, Eq)]
pub struct Span {
    pub start: usize,
    pub end: usize,
}

/// `spans` gives the place of each line of `s`.
pub open spec fn spans_of(spans: Seq<Span>, s: Seq<char>) -> bool {
    &&& spans.len() == lines_of(s).len()
    &&& forall|i: int|
        0 <= i < spans.len() ==> {
            &&& (#[trigger] spans[i]).start <= spans[i].end <= s.len()
            &&& s.subrange(spans[i].start as int, spans[i].end as int) == lines_of(s)[i]
        }
}

/// Splits `s` into its lines.
pub fn line_spans(s: &Vec<char>) -> (r: Vec<Span>)
    ensures
        spans_of(r@, s@),
{
    let mut spans: Vec<Span> = Vec::new();
    let ghost mut done: Seq<Seq<char>> = Seq::empty();
    let mut start: usize = 0;
    while start < s.len()
        invariant
            start <= s.len(),
            lines_of(s@) == done + lines_from(s@, start as int),
            done.len() == spans.len(),
            forall|i: int|
                0 <= i < spans.len() ==> {
                    &&& (#[trigger] spans[i]).start <= spans[i].end <= s.len()
                    &&& s@.subrange(spans[i].start as int, spans[i].end as int) == done[i]
                },
        decreases s.len() - start,
    {
        let feed = scan(s, start, CharClass::Not('\n'));
        let end = if start < feed && feed < s.len() && s[feed - 1] == '\r' {
            feed - 1
        } else {
            feed
        };
        proof {
            let line = s@.subrange(start as int, end as int);
            assert(lines_from(s@, start as int) =~= seq![line] + lines_from(s@, feed + 1));
            assert(done + (seq![line] + lines_from(s@, feed + 1)) =~= done.push(line) + lines_from(
                s@,
                feed + 1,
            ));
            done = done.push(line);
        }
        spans.push(Span { start, end });
        if feed == s.len() {
            start = feed;
        } else {
            start = feed + 1;
        }
    }
    proof {
        assert(done + Seq::<Seq<char>>::empty() =~= done);
    }
    spans
}

/// Joins the lines `lo` to `hi` of `content`, counted from 0, `hi` left out,
/// with a line feed between each two.
pub fn join_lines(content: &str, spans: &Vec<Span>, lo: usize, hi: usize) -> (r: String)
    requires
        spans_of(spans@, content@),
        lo <= hi <= spans.len(),
    ensures
        r@ == joined(lines_of(content@).subrange(lo as int, hi as int), line_feed()),
{
    let ghost lines = lines_of(content@);
    let mut out = String::new();
    let mut k: usize = lo;
    while k < hi
        invariant
            lo <= k <= hi <= spans.len(),
            spans_of(spans@, content@),
            lines == lines_of(content@),
            out@ == joined(lines.subrange(lo as int, k as int), line_feed()),
        decreases hi - k,
    {
        if k > lo {
            out.append("\n");
        }
        let span = spans[k];
        out.append(content.substring_char(span.start, span.end));
        proof {
            let next = lines.subrange(lo as int, k + 1);
            assert(next.drop_last() =~= lines.subrange(lo as int, k as int));
            assert(next.last() == lines[k as int]);
            if k == lo {
                assert(out@ =~= lines[k as int]);
            }
        }
        k += 1;
    }
    out
}

} // verus!
