//! A resolved snippet and the block that it is rendered as.
//!
//! The block numbers its lines as the file does. The counter of the block
//! starts below zero, on the informational comment lines, and a table of
//! jumps sets it at each place where lines of the file are left out.

use crate::chars::{append_signed_decimal, signed_decimal};
use crate::info_comment::{InfoCommentSyntax, InfoCommentSyntaxView};
use crate::lines::joined;
use crate::oid::{hex_of, Oid};
use vstd::prelude::*;
use vstd::string::*;

verus! {

/// The text and the metadata of one snippet.
#[derive(Clone, Debug, PartialEq)]
pub struct Text {
    /// The revision that the file was read at.
    pub hash: Oid,
    /// The path of the file.
    pub filename: String,
    /// The language of the snippet.
    pub language: String,
    /// The syntax of the informational comments.
    pub info_comment_syntax: InfoCommentSyntax,
    /// The lines to highlight, handed on as they are written.
    pub highlight_lines: Option<String>,
    /// The lines that open the enclosing scopes, each with its number in the
    /// file, in ascending order of the numbers.
    pub scopes: Vec<(u32, String)>,
    /// The bodies of the snippet, each with the numbers of its first and of
    /// its last line in the file.
    pub bodies: Vec<(String, u32, u32)>,
}

/// The mathematical value of a [`Text`].
pub struct TextView {
    pub hash: Seq<u8>,
    pub filename: Seq<char>,
    pub language: Seq<char>,
    pub info_comment_syntax: InfoCommentSyntaxView,
    pub highlight_lines: Option<Seq<char>>,
    pub scopes: Seq<(u32, Seq<char>)>,
    pub bodies: Seq<(Seq<char>, u32, u32)>,
}

impl View for Text {
    type V = TextView;

    open spec fn view(&self) -> TextView {
        TextView {
            hash: self.hash@,
            filename: self.filename@,
            language: self.language@,
            info_comment_syntax: self.info_comment_syntax@,
            highlight_lines: match self.highlight_lines {
                Some(lines) => Some(lines@),
                None => None,
            },
            scopes: self.scopes.deep_view(),
            bodies: self.bodies.deep_view(),
        }
    }
}

/// One jump of the line counter: when the counter reaches `at`, it is set
/// to `to`.
pub struct Jump {
    pub at: int,
    pub to: int,
}

impl Jump {
    /// The jump passes over at least one line of the file.
    pub open spec fn is_gap(self) -> bool {
        self.to >= self.at
    }
}

impl TextView {
    /// The lines of interest, in the order in which they are rendered:
    /// each scope line as an interval of one line, then each body. An
    /// interval is the number of its first line and that of its last.
    pub open spec fn intervals(self) -> Seq<(int, int)> {
        Seq::new(
            self.scopes.len() + self.bodies.len(),
            |i: int|
                if i < self.scopes.len() {
                    (self.scopes[i].0 as int, self.scopes[i].0 as int)
                } else {
                    (
                        self.bodies[i - self.scopes.len()].1 as int,
                        self.bodies[i - self.scopes.len()].2 as int,
                    )
                },
        )
    }

    /// The table of jumps: one for each line of interest. Each leads to
    /// the line before its own interval. The first is taken on that same
    /// line, so that it only sets the counter; the others are taken on the
    /// line after the interval before.
    pub open spec fn line_map(self) -> Seq<Jump> {
        line_map_of(self.intervals())
    }

    /// There is something to render: a scope line or a body.
    pub open spec fn has_lines(self) -> bool {
        self.scopes.len() + self.bodies.len() > 0
    }

    /// The texts of the bodies.
    pub open spec fn body_texts(self) -> Seq<Seq<char>> {
        Seq::new(self.bodies.len(), |i: int| self.bodies[i].0)
    }

    /// The rendered block.
    pub open spec fn latex(self) -> Seq<char> {
        "{\n"@ + self.numbering() + self.opening() + self.info_lines() + scopes_text(
            self.scopes,
            self.scopes.len() as int,
        ) + joined(self.body_texts(), "\n\n"@) + "\n"@ + closing()
    }

    /// The part of the block that redefines how line numbers are printed.
    pub open spec fn numbering(self) -> Seq<char> {
        numbering_head() + rules_text(self.line_map(), self.line_map().len() as int)
            + numbering_tail(self.line_map().len() as int)
    }

    /// The line that opens the listing, with the language and the lines to highlight.
    pub open spec fn opening(self) -> Seq<char> {
        "\\begin{minted}[firstnumber=-3"@ + (match self.highlight_lines {
            Some(lines) => ", highlightlines={"@ + lines + "}"@,
            None => Seq::empty(),
        }) + "]{"@ + self.language + "}"@ + "\n"@
    }

    /// The two informational comment lines, with the revision and the path
    /// of the file, and the empty line after them.
    pub open spec fn info_lines(self) -> Seq<char> {
        self.info_comment_syntax.before + hex_of(self.hash) + self.info_comment_syntax.after
            + "\n"@ + self.info_comment_syntax.before + self.filename
            + self.info_comment_syntax.after + "\n"@ + "\n"@
    }
}

/// The table of jumps for the given intervals.
pub open spec fn line_map_of(intervals: Seq<(int, int)>) -> Seq<Jump> {
    Seq::new(
        intervals.len(),
        |i: int|
            Jump {
                at: if i == 0 {
                    intervals[0].0 - 1
                } else {
                    intervals[i - 1].1 + 1
                },
                to: intervals[i].0 - 1,
            },
    )
}

/// The start of the numbering part: the two informational comment lines
/// get no number.
pub open spec fn numbering_head() -> Seq<char> {
    "\\renewcommand\\theFancyVerbLine{ \\ttfamily\n\t\\textcolor[rgb]{0.5,0.5,1}{\n\t\t\\footnotesize\n\t\t\\oldstylenums{\n\t\t\t\\ifnum\\value{FancyVerbLine}=-3 \\else\n\t\t\t\\ifnum\\value{FancyVerbLine}=-2 \\else\n"@
}

/// The rule for one jump. Lines that are left out are marked with
/// an ellipsis; the first jump marks nothing.
pub open spec fn rule_text(jump: Jump, first: bool) -> Seq<char> {
    "\t\t\t\\ifnum\\value{FancyVerbLine}="@ + signed_decimal(jump.at)
        + "\\setcounter{FancyVerbLine}{"@ + signed_decimal(jump.to) + "}"@ + (if !first
        && jump.is_gap() {
        "... "@
    } else {
        Seq::empty()
    }) + "\\else\n"@
}

/// The rules for the first `k` jumps.
pub open spec fn rules_text(jumps: Seq<Jump>, k: int) -> Seq<char>
    decreases k,
{
    if k <= 0 {
        Seq::empty()
    } else {
        rules_text(jumps, k - 1) + rule_text(jumps[k - 1], k == 1)
    }
}

/// `text`, `n` times.
pub open spec fn repeated(text: Seq<char>, n: int) -> Seq<char>
    decreases n,
{
    if n <= 0 {
        Seq::empty()
    } else {
        repeated(text, n - 1) + text
    }
}

/// The end of the numbering part: every other line gets its number, and
/// each conditional is closed, those of the `n` jumps too.
pub open spec fn numbering_tail(n: int) -> Seq<char> {
    "\t\t\t\t\\arabic{FancyVerbLine}\n\t\t\t\\fi\\fi"@ + repeated("\\fi"@, n) + "\n\t\t}\n\t}\n}\n"@
}

/// The first `k` scope lines, each followed by an empty line.
pub open spec fn scopes_text(scopes: Seq<(u32, Seq<char>)>, k: int) -> Seq<char>
    decreases k,
{
    if k <= 0 {
        Seq::empty()
    } else {
        scopes_text(scopes, k - 1) + scopes[k - 1].1 + "\n\n"@
    }
}

/// The end of the block.
pub open spec fn closing() -> Seq<char> {
    "\\end{minted}\n}"@
}

/// The jumps that the pairs of numbers stand for.
pub open spec fn jumps_of(pairs: Seq<(i64, i64)>) -> Seq<Jump> {
    Seq::new(pairs.len(), |i: int| Jump { at: pairs[i].0 as int, to: pairs[i].1 as int })
}

impl Text {
    /// The table of jumps of the line counter, each as the pair of the
    /// value at which it is taken and the value that it leads to.
    pub fn line_number_pairs(&self) -> (r: Vec<(i64, i64)>)
        ensures
            jumps_of(r@) == self@.line_map(),
            r@.len() == self.scopes@.len() + self.bodies@.len(),
    {
        let ghost intervals = self@.intervals();
        let mut pairs: Vec<(i64, i64)> = Vec::new();
        // The last line of the interval before, once there is one.
        let mut before: i64 = 0;
        let mut i: usize = 0;
        while i < self.scopes.len()
            invariant
                i <= self.scopes.len(),
                intervals == self@.intervals(),
                pairs@.len() == i,
                0 <= before <= u32::MAX,
                i > 0 ==> before == intervals[i - 1].1,
                forall|k: int| 0 <= k < i ==> jumps_of(pairs@)[k] == line_map_of(intervals)[k],
            decreases self.scopes.len() - i,
        {
            let n = self.scopes[i].0;
            assert(self.scopes.deep_view()[i as int].0 == n);
            let to: i64 = n as i64 - 1;
            let at: i64 = if i == 0 {
                to
            } else {
                before + 1
            };
            pairs.push((at, to));
            before = n as i64;
            i += 1;
        }
        let mut j: usize = 0;
        while j < self.bodies.len()
            invariant
                i == self.scopes.len(),
                j <= self.bodies.len(),
                intervals == self@.intervals(),
                pairs@.len() == i + j,
                0 <= before <= u32::MAX,
                i + j > 0 ==> before == intervals[i + j - 1].1,
                forall|k: int| 0 <= k < i + j ==> jumps_of(pairs@)[k] == line_map_of(intervals)[k],
            decreases self.bodies.len() - j,
        {
            let first = self.bodies[j].1;
            let last = self.bodies[j].2;
            assert(self.bodies.deep_view()[j as int].1 == first);
            assert(self.bodies.deep_view()[j as int].2 == last);
            let to: i64 = first as i64 - 1;
            let at: i64 = if i == 0 && j == 0 {
                to
            } else {
                before + 1
            };
            pairs.push((at, to));
            before = last as i64;
            j += 1;
        }
        assert(jumps_of(pairs@) =~= self@.line_map());
        pairs
    }

    /// Renders the snippet as a block: the numbering part, the listing with
    /// the two informational comment lines, the scope lines and the bodies.
    /// There must be a scope line or a body.
    pub fn get_latex(&self) -> (r: String)
        requires
            self@.has_lines(),
        ensures
            r@ == self@.latex(),
    {
        let pairs = self.line_number_pairs();
        let ghost jumps = self@.line_map();
        let mut s = "{\n".to_owned();
        s.append(
            "\\renewcommand\\theFancyVerbLine{ \\ttfamily\n\t\\textcolor[rgb]{0.5,0.5,1}{\n\t\t\\footnotesize\n\t\t\\oldstylenums{\n\t\t\t\\ifnum\\value{FancyVerbLine}=-3 \\else\n\t\t\t\\ifnum\\value{FancyVerbLine}=-2 \\else\n",
        );
        let ghost head = s@;
        let mut k: usize = 0;
        while k < pairs.len()
            invariant
                k <= pairs.len(),
                jumps_of(pairs@) == jumps,
                s@ == head + rules_text(jumps, k as int),
            decreases pairs.len() - k,
        {
            let (at, to) = pairs[k];
            assert(jumps[k as int] == Jump { at: at as int, to: to as int });
            let ghost before = s@;
            s.append("\t\t\t\\ifnum\\value{FancyVerbLine}=");
            append_signed_decimal(&mut s, at);
            s.append("\\setcounter{FancyVerbLine}{");
            append_signed_decimal(&mut s, to);
            s.append("}");
            if k > 0 && to >= at {
                s.append("... ");
            }
            s.append("\\else\n");
            assert(s@ =~= before + rule_text(jumps[k as int], k == 0));
            assert(s@ =~= head + rules_text(jumps, k + 1));
            k += 1;
        }
        s.append("\t\t\t\t\\arabic{FancyVerbLine}\n\t\t\t\\fi\\fi");
        let ghost mid = s@;
        let mut f: usize = 0;
        while f < pairs.len()
            invariant
                f <= pairs.len(),
                s@ == mid + repeated("\\fi"@, f as int),
            decreases pairs.len() - f,
        {
            s.append("\\fi");
            assert(s@ =~= mid + repeated("\\fi"@, f + 1));
            f += 1;
        }
        s.append("\n\t\t}\n\t}\n}\n");
        assert(s@ =~= "{\n"@ + self@.numbering());

        s.append("\\begin{minted}[firstnumber=-3");
        if let Some(lines) = &self.highlight_lines {
            s.append(", highlightlines={");
            s.append(lines.as_str());
            s.append("}");
        }
        s.append("]{");
        s.append(self.language.as_str());
        s.append("}");
        s.append("\n");
        assert(s@ =~= "{\n"@ + self@.numbering() + self@.opening());

        s.append(self.info_comment_syntax.before.as_str());
        s.append(self.hash.to_hex().as_str());
        s.append(self.info_comment_syntax.after.as_str());
        s.append("\n");
        s.append(self.info_comment_syntax.before.as_str());
        s.append(self.filename.as_str());
        s.append(self.info_comment_syntax.after.as_str());
        s.append("\n");
        s.append("\n");
        assert(s@ =~= "{\n"@ + self@.numbering() + self@.opening() + self@.info_lines());

        let ghost top = s@;
        let mut i: usize = 0;
        while i < self.scopes.len()
            invariant
                i <= self.scopes.len(),
                s@ == top + scopes_text(self@.scopes, i as int),
            decreases self.scopes.len() - i,
        {
            assert(self.scopes.deep_view()[i as int].1 == self.scopes[i as int].1@);
            s.append(self.scopes[i].1.as_str());
            s.append("\n\n");
            assert(s@ =~= top + scopes_text(self@.scopes, i + 1));
            i += 1;
        }
        let ghost above = s@;
        let ghost texts = self@.body_texts();
        let mut j: usize = 0;
        while j < self.bodies.len()
            invariant
                j <= self.bodies.len(),
                texts == self@.body_texts(),
                s@ == above + joined(texts.subrange(0, j as int), "\n\n"@),
            decreases self.bodies.len() - j,
        {
            if j > 0 {
                s.append("\n\n");
            }
            assert(self.bodies.deep_view()[j as int].0 == self.bodies[j as int].0@);
            s.append(self.bodies[j].0.as_str());
            proof {
                let next = texts.subrange(0, j + 1);
                assert(next.drop_last() =~= texts.subrange(0, j as int));
                assert(next.last() == texts[j as int]);
                assert(s@ =~= above + joined(next, "\n\n"@));
            }
            j += 1;
        }
        assert(texts.subrange(0, j as int) =~= texts);
        s.append("\n");
        s.append("\\end{minted}\n}");
        assert(s@ =~= self@.latex());
        s
    }
}

} // verus!
