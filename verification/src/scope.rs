//! The enclosing scopes of a snippet, found by indentation alone.
//!
//! A line above the snippet opens an enclosing scope if it is indented
//! less than the first line of the snippet. Of the lines with one
//! indentation only the nearest counts, and lines above the nearest line
//! without indentation never count.

use crate::chars::{lemma_run_end_is, run_end, slice_of, CharClass};
use crate::lines::{lines_of, spans_of, Span};
use vstd::prelude::*;

verus! {

/// The width of one step of indentation.
pub open spec fn indent_step() -> int {
    4
}

/// The number of spaces that `line` starts with.
pub open spec fn indent_of(line: Seq<char>) -> int {
    run_end(line, 0, CharClass::Is(' '))
}

/// The line `i` may open a scope around the line `base`, both counted
/// from 0: it stands above, is not empty, and is indented by whole steps
/// and less than the line `base`.
pub open spec fn is_candidate(lines: Seq<Seq<char>>, base: int, i: int) -> bool {
    &&& 0 <= i < base < lines.len()
    &&& lines[i].len() > 0
    &&& indent_of(lines[i]) < indent_of(lines[base])
    &&& indent_of(lines[i]) % indent_step() == 0
}

/// The line `i` is the nearest above the line `base` of the candidates
/// with its indentation.
pub open spec fn is_nearest(lines: Seq<Seq<char>>, base: int, i: int) -> bool {
    &&& is_candidate(lines, base, i)
    &&& forall|j: int|
        i < j < base && #[trigger] is_candidate(lines, base, j) ==> indent_of(lines[j])
            != indent_of(lines[i])
}

/// The line `i` opens a scope around the line `base`: it is the nearest of
/// its indentation, and the nearest line without indentation stands at or
/// above it.
pub open spec fn is_scope(lines: Seq<Seq<char>>, base: int, i: int) -> bool {
    &&& is_nearest(lines, base, i)
    &&& exists|top: int|
        0 <= top <= i && #[trigger] is_nearest(lines, base, top) && indent_of(lines[top]) == 0
}

/// The scope lines among the first `k` lines, from the top down, each with
/// its number counted from 1.
pub open spec fn scopes_among(lines: Seq<Seq<char>>, base: int, k: int) -> Seq<(u32, Seq<char>)>
    decreases k,
{
    if k <= 0 {
        Seq::empty()
    } else if is_scope(lines, base, k - 1) {
        scopes_among(lines, base, k - 1).push((k as u32, lines[k - 1]))
    } else {
        scopes_among(lines, base, k - 1)
    }
}

/// The scope lines around the line with the number `first`, counted from 1,
/// from the top down.
pub open spec fn scope_lines(lines: Seq<Seq<char>>, first: int) -> Seq<(u32, Seq<char>)> {
    scopes_among(lines, first - 1, first - 1)
}

/// Two lines that are both the nearest of their indentation are indented differently.
pub proof fn lemma_nearest_differ(lines: Seq<Seq<char>>, base: int, i: int, j: int)
    requires
        is_nearest(lines, base, i),
        is_nearest(lines, base, j),
        i != j,
    ensures
        indent_of(lines[i]) != indent_of(lines[j]),
{
    if i < j {
        assert(is_candidate(lines, base, j));
    } else {
        assert(is_candidate(lines, base, i));
    }
}

/// What the scope lines are: they come in ascending order, each of them is
/// a line that opens a scope, with its own text, and no such line is left out.
pub proof fn lemma_scopes_among(lines: Seq<Seq<char>>, base: int, k: int)
    requires
        0 <= k <= base < lines.len(),
        base <= u32::MAX,
    ensures
        scopes_among(lines, base, k).len() <= k,
        forall|n: int|
            0 <= n < scopes_among(lines, base, k).len() ==> {
                let entry = #[trigger] scopes_among(lines, base, k)[n];
                &&& 1 <= entry.0 <= k
                &&& is_scope(lines, base, entry.0 - 1)
                &&& entry.1 == lines[entry.0 - 1]
            },
        forall|m: int, n: int|
            0 <= m < n < scopes_among(lines, base, k).len() ==> (#[trigger] scopes_among(
                lines,
                base,
                k,
            )[m]).0 < (#[trigger] scopes_among(lines, base, k)[n]).0,
        forall|i: int|
            0 <= i < k && is_scope(lines, base, i) ==> exists|n: int|
                0 <= n < scopes_among(lines, base, k).len() && (#[trigger] scopes_among(
                    lines,
                    base,
                    k,
                )[n]).0 == i + 1,
    decreases k,
{
    if k > 0 {
        lemma_scopes_among(lines, base, k - 1);
        let before = scopes_among(lines, base, k - 1);
        let all = scopes_among(lines, base, k);
        assert forall|i: int| 0 <= i < k && is_scope(lines, base, i) implies exists|n: int|
            0 <= n < all.len() && (#[trigger] all[n]).0 == i + 1 by {
            if i < k - 1 {
                let n = choose|n: int| 0 <= n < before.len() && (#[trigger] before[n]).0 == i + 1;
                assert(all[n] == before[n]);
            } else {
                assert(all[all.len() - 1].0 == k);
            }
        }
    }
}

/// The indentation of the line at `span`.
fn indent_at(s: &Vec<char>, span: Span) -> (r: usize)
    requires
        span.start <= span.end <= s.len(),
    ensures
        r as int == indent_of(s@.subrange(span.start as int, span.end as int)),
{
    let ghost line = s@.subrange(span.start as int, span.end as int);
    let mut k: usize = span.start;
    while k < span.end && s[k] == ' '
        invariant
            span.start <= k <= span.end <= s.len(),
            line == s@.subrange(span.start as int, span.end as int),
            forall|i: int| 0 <= i < k - span.start ==> #[trigger] line[i] == ' ',
        decreases span.end - k,
    {
        k += 1;
    }
    proof {
        lemma_run_end_is(line, 0, CharClass::Is(' '), k - span.start);
    }
    k - span.start
}

/// Finds the scope lines around the line with the number `first`, counted
/// from 1, walking up from that line.
pub fn find_scopes(content: &str, s: &Vec<char>, spans: &Vec<Span>, first: u32) -> (r: Vec<
    (u32, String),
>)
    requires
        s@ == content@,
        spans_of(spans@, s@),
        1 <= first <= spans.len(),
    ensures
        r.deep_view() == scope_lines(lines_of(content@), first as int),
{
    let ghost lines = lines_of(s@);
    let base: usize = (first - 1) as usize;
    let baseline = indent_at(s, spans[base]);
    // For each step of indentation below the baseline, whether a line with
    // it was met on the way up.
    let mut seen: Vec<bool> = vec![false; baseline / 4 + 1];
    let ghost mut met: Seq<int> = Seq::new(seen.len() as nat, |k: int| 0);
    let mut nearest: Vec<bool> = vec![false; base];
    let mut top: Option<usize> = None;
    let mut i: usize = base;
    while i > 0
        invariant
            i <= base < spans.len(),
            base == first - 1,
            lines == lines_of(s@),
            spans_of(spans@, s@),
            baseline == indent_of(lines[base as int]),
            seen.len() == baseline / 4 + 1,
            met.len() == seen.len(),
            nearest.len() == base,
            forall|j: int| 0 <= j < i ==> !nearest[j],
            forall|j: int| i <= j < base ==> nearest[j] == is_nearest(lines, base as int, j),
            forall|k: int|
                0 <= k < seen.len() && #[trigger] seen[k] ==> i <= met[k] < base && is_candidate(
                    lines,
                    base as int,
                    met[k],
                ) && indent_of(lines[met[k]]) == 4 * k,
            forall|k: int, j: int|
                0 <= k < seen.len() && !#[trigger] seen[k] && i <= j < base
                    && #[trigger] is_candidate(lines, base as int, j) ==> indent_of(lines[j]) != 4
                    * k,
            match top {
                Some(t) => i <= t < base && is_nearest(lines, base as int, t as int) && indent_of(
                    lines[t as int],
                ) == 0,
                None => forall|j: int|
                    i <= j < base ==> !(#[trigger] is_nearest(lines, base as int, j) && indent_of(
                        lines[j],
                    ) == 0),
            },
        decreases i,
    {
        i -= 1;
        let span = spans[i];
        let indent = indent_at(s, span);
        let ghost old_seen = seen@;
        if span.end > span.start && indent < baseline && indent % 4 == 0 {
            assert(is_candidate(lines, base as int, i as int));
            let k = indent / 4;
            if !seen[k] {
                assert(is_nearest(lines, base as int, i as int));
                seen[k] = true;
                nearest[i] = true;
                proof {
                    met = met.update(k as int, i as int);
                }
                if indent == 0 {
                    top = Some(i);
                }
            } else {
                assert(is_candidate(lines, base as int, met[k as int]));
                assert(!is_nearest(lines, base as int, i as int));
            }
        } else {
            assert(!is_candidate(lines, base as int, i as int));
        }
        proof {
            assert forall|k: int, j: int|
                0 <= k < seen.len() && !#[trigger] seen[k] && i <= j < base
                    && #[trigger] is_candidate(lines, base as int, j) implies indent_of(lines[j])
                != 4 * k by {
                if j > i {
                    assert(!old_seen[k]);
                }
            }
        }
    }
    let mut out: Vec<(u32, String)> = Vec::new();
    let mut n: usize = 0;
    while n < base
        invariant
            n <= base < spans.len(),
            base == first - 1,
            s@ == content@,
            lines == lines_of(s@),
            spans_of(spans@, s@),
            nearest.len() == base,
            forall|j: int| 0 <= j < base ==> nearest[j] == is_nearest(lines, base as int, j),
            match top {
                Some(t) => t < base && is_nearest(lines, base as int, t as int) && indent_of(
                    lines[t as int],
                ) == 0,
                None => forall|j: int|
                    0 <= j < base ==> !(#[trigger] is_nearest(lines, base as int, j) && indent_of(
                        lines[j],
                    ) == 0),
            },
            out.deep_view() == scopes_among(lines, base as int, n as int),
        decreases base - n,
    {
        let opens = nearest[n] && match top {
            Some(t) => t <= n,
            None => false,
        };
        proof {
            if opens {
                assert(is_nearest(lines, base as int, top->0 as int));
            } else if is_scope(lines, base as int, n as int) {
                let z = choose|z: int|
                    0 <= z <= n && #[trigger] is_nearest(lines, base as int, z) && indent_of(
                        lines[z],
                    ) == 0;
                if top is Some {
                    lemma_nearest_differ(lines, base as int, z, top->0 as int);
                }
            }
            assert(opens == is_scope(lines, base as int, n as int));
        }
        if opens {
            let span = spans[n];
            let ghost before = out.deep_view();
            out.push(((n + 1) as u32, slice_of(content, span.start, span.end)));
            assert(out.deep_view() =~= before.push(((n + 1) as u32, lines[n as int])));
        }
        n += 1;
    }
    out
}

} // verus!
