//! Snippet comments: the two comment lines of a document that refer to a
//! part of a file at a revision.
//!
//! The first line holds the revision, the second the path of the file,
//! then the numbers of the lines, if not the whole file is meant, and the
//! options:
//!
//! ```text
//! %: 29ec1fedbf307e3b7ca731c4a381535fec899b0b
//! %: src/lintrans/matrices/wrapper.py:11-22 noscopes
//! ```

use crate::chars::{
    append_decimal, chars_of, decimal, digit, digit_value, has_at, lemma_run_end, number, run_end,
    scan, slice_of, starts_at, CharClass,
};
use crate::config::{outcome, parsed, Config, ConfigError, ConfigErrorView, ConfigView, Outcome};
use crate::lines::{at_most, excerpt, join_lines, line_spans, lines_of, spans_of};
use crate::notice::{find_start_line, start_line};
use crate::oid::{all_lower_hex, bytes_of_hex, hex_of, Oid};
use crate::scope::{find_scopes, scope_lines};
use crate::text::{Text, TextView};
use vstd::pervasive::unreached;
use vstd::prelude::*;
use vstd::string::*;

verus! {

/// A reference to a snippet, as a snippet comment gives it.
#[derive(Clone, Debug, PartialEq)]
pub struct Comment {
    /// The revision to read the file at.
    pub hash: Oid,
    /// The path of the file.
    pub filename: String,
    /// The first and the last line of each body, counted from 1. Without
    /// them the whole file is meant.
    pub line_ranges: Option<Vec<(u32, u32)>>,
    /// The options of the snippet.
    pub config: Config,
}

/// The mathematical value of a [`Comment`].
pub struct CommentView {
    pub hash: Seq<u8>,
    pub filename: Seq<char>,
    pub line_ranges: Option<Seq<(u32, u32)>>,
    pub config: ConfigView,
}

impl View for Comment {
    type V = CommentView;

    open spec fn view(&self) -> CommentView {
        CommentView {
            hash: self.hash@,
            filename: self.filename@,
            line_ranges: match self.line_ranges {
                Some(ranges) => Some(ranges@),
                None => None,
            },
            config: self.config@,
        }
    }
}

/// The number that is written at `pos` and the position after it: a run
/// of digits whose value fits in 32 bits.
pub open spec fn number_at(s: Seq<char>, pos: int) -> Option<(u32, int)> {
    let end = run_end(s, pos, CharClass::Digit);
    if 0 <= pos < end && number(s.subrange(pos, end)) <= u32::MAX {
        Some((number(s.subrange(pos, end)) as u32, end))
    } else {
        None
    }
}

/// The range of lines that is written at `pos` and the position after it:
/// two numbers with a dash between them, or one number, which is then both
/// the first and the last line.
pub open spec fn range_at(s: Seq<char>, pos: int) -> Option<((u32, u32), int)> {
    match number_at(s, pos) {
        None => None,
        Some((first, end)) => match number_at(s, end + 1) {
            Some((last, after)) if end < s.len() && s[end] == '-' => Some(((first, last), after)),
            _ => Some(((first, first), end)),
        },
    }
}

/// The ranges that follow the position `pos`, each after a comma, and the
/// position after the last of them.
pub open spec fn ranges_after(s: Seq<char>, pos: int) -> (Seq<(u32, u32)>, int)
    decreases s.len() - pos,
{
    if 0 <= pos < s.len() && s[pos] == ',' {
        match range_at(s, pos + 1) {
            Some((range, end)) if pos < end <= s.len() => (
                seq![range] + ranges_after(s, end).0,
                ranges_after(s, end).1,
            ),
            _ => (Seq::empty(), pos),
        }
    } else {
        (Seq::empty(), pos)
    }
}

/// The ranges of lines that are written at the start of `s`, with commas
/// between them, and the position after the last of them. There is none
/// where `s` does not start with a range.
pub open spec fn line_ranges_of(s: Seq<char>) -> Option<(Seq<(u32, u32)>, int)> {
    match range_at(s, 0) {
        None => None,
        Some((range, end)) => Some((seq![range] + ranges_after(s, end).0, ranges_after(s, end).1)),
    }
}

/// The value of a digit lies between 0 and 9.
pub proof fn lemma_digit_value(c: char)
    requires
        digit(c),
    ensures
        0 <= digit_value(c) <= 9,
{
}

/// A numeral without its last digits denotes no more than the numeral.
pub proof fn lemma_number_prefix(s: Seq<char>, k: int)
    requires
        0 <= k <= s.len(),
        forall|i: int| 0 <= i < s.len() ==> digit(#[trigger] s[i]),
    ensures
        number(s.subrange(0, k)) <= number(s),
    decreases s.len() - k,
{
    if k == s.len() {
        assert(s.subrange(0, k) =~= s);
    } else {
        lemma_number_prefix(s.drop_last(), k);
        assert(s.drop_last().subrange(0, k) =~= s.subrange(0, k));
        lemma_digit_value(s.last());
    }
}

/// Reads the number that is written at `pos`.
fn read_number(s: &Vec<char>, pos: usize) -> (r: Option<(u32, usize)>)
    requires
        pos <= s.len(),
    ensures
        match r {
            Some((n, end)) => number_at(s@, pos as int) == Some((n, end as int)) && pos < end
                <= s.len(),
            None => number_at(s@, pos as int) is None,
        },
{
    let end = scan(s, pos, CharClass::Digit);
    if end == pos {
        return None;
    }
    let ghost numeral = s@.subrange(pos as int, end as int);
    proof {
        lemma_run_end(s@, pos as int, CharClass::Digit);
    }
    let mut value: u64 = 0;
    let mut k: usize = pos;
    while k < end
        invariant
            pos <= k <= end <= s.len(),
            end as int == run_end(s@, pos as int, CharClass::Digit),
            numeral == s@.subrange(pos as int, end as int),
            forall|i: int| 0 <= i < numeral.len() ==> digit(#[trigger] numeral[i]),
            value == number(numeral.subrange(0, k - pos)),
            value <= u32::MAX,
        decreases end - k,
    {
        let c = s[k];
        assert(c == numeral[k - pos]);
        let d: u64 = (c as u32 - 0x30) as u64;
        proof {
            let next = numeral.subrange(0, k + 1 - pos);
            assert(next.drop_last() =~= numeral.subrange(0, k - pos));
            assert(next.last() == c);
            assert(number(next) == value * 10 + d);
        }
        value = value * 10 + d;
        if value > 0xffff_ffff {
            proof {
                lemma_number_prefix(numeral, k + 1 - pos);
            }
            return None;
        }
        k += 1;
    }
    assert(numeral.subrange(0, k - pos) =~= numeral);
    Some((value as u32, end))
}

/// Reads the range of lines that is written at `pos`.
fn read_range(s: &Vec<char>, pos: usize) -> (r: Option<((u32, u32), usize)>)
    requires
        pos <= s.len(),
    ensures
        match r {
            Some((range, end)) => range_at(s@, pos as int) == Some((range, end as int)) && pos
                < end <= s.len(),
            None => range_at(s@, pos as int) is None,
        },
{
    match read_number(s, pos) {
        None => None,
        Some((first, end)) => {
            if end < s.len() && s[end] == '-' {
                if let Some((last, after)) = read_number(s, end + 1) {
                    return Some(((first, last), after));
                }
            }
            Some(((first, first), end))
        },
    }
}

/// Reads the ranges at the start of `s`, and returns them with the
/// position after the last of them.
fn read_ranges(s: &Vec<char>) -> (r: Option<(Vec<(u32, u32)>, usize)>)
    ensures
        match r {
            Some((ranges, end)) => line_ranges_of(s@) == Some((ranges@, end as int)) && end
                <= s.len() && ranges@.len() > 0,
            None => line_ranges_of(s@) is None,
        },
{
    let (first, start) = match read_range(s, 0) {
        None => {
            return None;
        },
        Some(found) => found,
    };
    let mut ranges: Vec<(u32, u32)> = Vec::new();
    ranges.push(first);
    let mut pos: usize = start;
    loop
        invariant
            pos <= s.len(),
            ranges@.len() > 0,
            line_ranges_of(s@) == Some(
                (ranges@ + ranges_after(s@, pos as int).0, ranges_after(s@, pos as int).1),
            ),
        ensures
            ranges_after(s@, pos as int) == (Seq::<(u32, u32)>::empty(), pos as int),
        decreases s.len() - pos,
    {
        if pos >= s.len() || s[pos] != ',' {
            break ;
        }
        match read_range(s, pos + 1) {
            None => {
                break ;
            },
            Some((range, end)) => {
                proof {
                    assert(ranges@ + (seq![range] + ranges_after(s@, end as int).0) =~= ranges@.push(
                        range,
                    ) + ranges_after(s@, end as int).0);
                }
                ranges.push(range);
                pos = end;
            },
        }
    }
    assert(ranges@ + Seq::<(u32, u32)>::empty() =~= ranges@);
    Some((ranges, pos))
}

/// No range of lines stands at the start of the text.
#[derive(Clone, Copy, Debug, PartialEq, Eq)]
pub struct LineRangeError;

/// Reads ranges of lines, such as `11-20,24`, from the start of `input`.
/// Returns the rest of the input and the ranges, or an error where the
/// input does not start with a range.
pub fn parse_line_ranges(input: &str) -> (r: Result<(&str, Vec<(u32, u32)>), LineRangeError>)
    ensures
        match r {
            Ok((rest, ranges)) => line_ranges_of(input@) matches Some((found, end)) && ranges@
                == found && rest@ == input@.subrange(end, input@.len() as int),
            Err(_) => line_ranges_of(input@) is None,
        },
{
    let s = chars_of(input);
    match read_ranges(&s) {
        None => Err(LineRangeError),
        Some((ranges, end)) => Ok((input.substring_char(end, s.len()), ranges)),
    }
}

/// The marker that starts each line of a snippet comment.
pub open spec fn marker() -> Seq<char> {
    "%: "@
}

/// The number of digits of a revision.
pub open spec fn hash_len() -> int {
    40
}

/// The end of the item of a line list that starts at `pos`: two
/// runs of digits with a dash between them, or one run of digits.
pub open spec fn item_end(s: Seq<char>, pos: int) -> Option<int> {
    let first = run_end(s, pos, CharClass::Digit);
    let last = run_end(s, first + 1, CharClass::Digit);
    if !(0 <= pos < first) {
        None
    } else if first < s.len() && s[first] == '-' && first + 1 < last {
        Some(last)
    } else {
        Some(first)
    }
}

/// The end of the items that follow each other from `pos` on, each with or
/// without a comma after it. It is `pos` where no item starts there.
pub open spec fn items_end(s: Seq<char>, pos: int) -> int
    decreases s.len() - pos,
{
    match item_end(s, pos) {
        Some(end) if pos < end <= s.len() => if end < s.len() && s[end] == ',' {
            items_end(s, end + 1)
        } else {
            items_end(s, end)
        },
        _ => pos,
    }
}

/// Where the parts of a snippet comment stand in a text.
pub struct Directive {
    /// The start of the comment: the marker of its first line.
    pub start: int,
    /// The end of the path of the file.
    pub name_end: int,
    /// The end of the line list, or of the path where there is none.
    pub list_end: int,
    /// The end of the comment: the end of its second line.
    pub end: int,
}

/// Why a snippet comment could not be read.
#[derive(Clone, Debug, PartialEq, Eq)]
pub enum DirectiveError {
    /// The first line number does not fit in 32 bits.
    LineNumber,
    /// The options cannot be read.
    Config(ConfigError),
}

/// The mathematical value of a [`DirectiveError`].
pub enum DirectiveErrorView {
    LineNumber,
    Config(ConfigErrorView),
}

impl View for DirectiveError {
    type V = DirectiveErrorView;

    open spec fn view(&self) -> DirectiveErrorView {
        match self {
            DirectiveError::LineNumber => DirectiveErrorView::LineNumber,
            DirectiveError::Config(e) => DirectiveErrorView::Config(e@),
        }
    }
}

impl Directive {
    /// The start of the digits of the revision.
    pub open spec fn hash_start(self) -> int {
        self.start + marker().len()
    }

    /// The start of the path of the file, on the second line.
    pub open spec fn name_start(self) -> int {
        self.hash_start() + hash_len() + 1 + marker().len()
    }

    /// The digits of the revision.
    pub open spec fn hash(self, s: Seq<char>) -> Seq<char> {
        s.subrange(self.hash_start(), self.hash_start() + hash_len())
    }

    /// The path of the file.
    pub open spec fn filename(self, s: Seq<char>) -> Seq<char> {
        s.subrange(self.name_start(), self.name_end)
    }

    /// The line list, without the colon before it.
    pub open spec fn line_list(self, s: Seq<char>) -> Option<Seq<char>> {
        if self.list_end > self.name_end {
            Some(s.subrange(self.name_end + 1, self.list_end))
        } else {
            None
        }
    }

    /// The option string: the rest of the second line.
    pub open spec fn options(self, s: Seq<char>) -> Seq<char> {
        s.subrange(self.list_end, self.end)
    }

    /// The text of the whole comment.
    pub open spec fn text(self, s: Seq<char>) -> Seq<char> {
        s.subrange(self.start, self.end)
    }

    /// The ranges of lines that the comment names, if it names any. They
    /// cannot be read where the first number of the line list
    /// does not fit in 32 bits.
    pub open spec fn line_ranges(self, s: Seq<char>) -> Result<
        Option<Seq<(u32, u32)>>,
        DirectiveErrorView,
    > {
        match self.line_list(s) {
            None => Ok(None),
            Some(text) => match line_ranges_of(text) {
                None => Err(DirectiveErrorView::LineNumber),
                Some((ranges, _)) => Ok(Some(ranges)),
            },
        }
    }

    /// The reference that the comment stands for, or the reason why it
    /// cannot be read.
    pub open spec fn comment(self, s: Seq<char>) -> Result<CommentView, DirectiveErrorView> {
        match self.line_ranges(s) {
            Err(e) => Err(e),
            Ok(ranges) => match outcome(self.options(s)) {
                Outcome::Failed(e) => Err(DirectiveErrorView::Config(e)),
                _ => Ok(
                    CommentView {
                        hash: bytes_of_hex(self.hash(s)),
                        filename: self.filename(s),
                        line_ranges: ranges,
                        config: parsed(self.options(s)),
                    },
                ),
            },
        }
    }
}

/// The snippet comment that starts at `pos`, which is the start of a line:
/// the marker, the forty digits of the revision, a line feed, the marker,
/// the path of the file, which holds neither white space nor a colon, then
/// a colon and a line list, if there is one, and the options to
/// the end of the line.
pub open spec fn directive_at(s: Seq<char>, pos: int) -> Option<Directive> {
    let hash_start = pos + marker().len();
    let hash_end = hash_start + hash_len();
    let name_start = hash_end + 1 + marker().len();
    let name_end = run_end(s, name_start, CharClass::Name(':'));
    let items = items_end(s, name_end + 1);
    let list_end = if name_end < s.len() && s[name_end] == ':' && name_end + 1 < items {
        items
    } else {
        name_end
    };
    let end = run_end(s, list_end, CharClass::Not('\n'));
    if (pos == 0 || (0 < pos && s[pos - 1] == '\n')) && has_at(s, pos, marker()) && hash_end
        < s.len() && all_lower_hex(s.subrange(hash_start, hash_end)) && s[hash_end] == '\n'
        && has_at(s, hash_end + 1, marker()) && name_start < name_end {
        Some(Directive { start: pos, name_end, list_end, end })
    } else {
        None
    }
}

/// The first snippet comment of `s` that starts at or after `from`.
pub open spec fn first_directive(s: Seq<char>, from: int) -> Option<Directive>
    decreases s.len() - from,
{
    if from < 0 || from >= s.len() {
        None
    } else if directive_at(s, from) is Some {
        directive_at(s, from)
    } else {
        first_directive(s, from + 1)
    }
}

/// The texts of the snippet comments of `s` from the position `from` on, in
/// the order in which they stand. The search for the next one starts
/// where the one before ends.
pub open spec fn comments_from(s: Seq<char>, from: int) -> Seq<Seq<char>>
    decreases s.len() - from,
{
    match first_directive(s, from) {
        Some(d) if from < d.end <= s.len() => seq![d.text(s)] + comments_from(s, d.end),
        _ => Seq::empty(),
    }
}

/// The reference that the first snippet comment of `s` stands for, or the
/// reason why it cannot be read. There is none where `s` holds no snippet comment.
pub open spec fn comment_of(s: Seq<char>) -> Option<Result<CommentView, DirectiveErrorView>> {
    match first_directive(s, 0) {
        None => None,
        Some(d) => Some(d.comment(s)),
    }
}

/// The parts of a snippet comment lie in the text, in their order.
pub proof fn lemma_directive_span(s: Seq<char>, pos: int)
    requires
        0 <= pos <= s.len(),
    ensures
        directive_at(s, pos) matches Some(d) ==> d.start == pos && d.name_start() < d.name_end
            <= d.list_end <= d.end <= s.len() && (d.list_end > d.name_end ==> d.list_end
            > d.name_end + 1),
{
    if directive_at(s, pos) is Some {
        let d = directive_at(s, pos)->0;
        lemma_run_end(s, d.name_start(), CharClass::Name(':'));
        lemma_items_end(s, d.name_end + 1);
        lemma_run_end(s, d.list_end, CharClass::Not('\n'));
    }
}

/// The items of a line list end inside the text.
pub proof fn lemma_items_end(s: Seq<char>, pos: int)
    requires
        0 <= pos,
    ensures
        pos <= items_end(s, pos),
        pos <= s.len() ==> items_end(s, pos) <= s.len(),
    decreases s.len() - pos,
{
    match item_end(s, pos) {
        Some(end) if pos < end <= s.len() => {
            if end < s.len() && s[end] == ',' {
                lemma_items_end(s, end + 1);
            } else {
                lemma_items_end(s, end);
            }
        },
        _ => {},
    }
}

/// The positions of a [`Directive`], as the scanner finds them.
struct Found {
    start: usize,
    name_end: usize,
    list_end: usize,
    end: usize,
}

impl Found {
    spec fn view(self) -> Directive {
        Directive {
            start: self.start as int,
            name_end: self.name_end as int,
            list_end: self.list_end as int,
            end: self.end as int,
        }
    }
}

/// Finds the end of the item of a line list that starts at `pos`.
fn find_item_end(s: &Vec<char>, pos: usize) -> (r: Option<usize>)
    requires
        pos <= s.len(),
    ensures
        match r {
            Some(end) => item_end(s@, pos as int) == Some(end as int) && pos < end <= s.len(),
            None => item_end(s@, pos as int) is None,
        },
{
    let first = scan(s, pos, CharClass::Digit);
    if first == pos {
        return None;
    }
    if first < s.len() && s[first] == '-' {
        let last = scan(s, first + 1, CharClass::Digit);
        if first + 1 < last {
            return Some(last);
        }
    }
    Some(first)
}

/// Finds the end of the items of a line list that follow each other from `pos` on.
fn find_items_end(s: &Vec<char>, pos: usize) -> (r: usize)
    requires
        pos <= s.len(),
    ensures
        r as int == items_end(s@, pos as int),
        pos <= r <= s.len(),
{
    let mut at: usize = pos;
    loop
        invariant
            pos <= at <= s.len(),
            items_end(s@, pos as int) == items_end(s@, at as int),
        ensures
            at as int == items_end(s@, pos as int),
        decreases s.len() - at,
    {
        match find_item_end(s, at) {
            None => {
                break ;
            },
            Some(end) => {
                if end < s.len() && s[end] == ',' {
                    at = end + 1;
                } else {
                    at = end;
                }
            },
        }
    }
    at
}

/// Finds the parts of the snippet comment that starts at `pos`.
fn read_directive(s: &Vec<char>, pos: usize) -> (r: Option<Found>)
    requires
        pos <= s.len(),
    ensures
        match r {
            Some(found) => directive_at(s@, pos as int) == Some(found.view()) && found.start == pos
                && found.view().name_start() < found.name_end <= found.list_end <= found.end
                <= s.len(),
            None => directive_at(s@, pos as int) is None,
        },
{
    proof {
        reveal_strlit("%: ");
        lemma_directive_span(s@, pos as int);
    }
    if pos > 0 && s[pos - 1] != '\n' {
        return None;
    }
    if !starts_at(s, pos, "%: ") {
        return None;
    }
    let hash_start = pos + 3;
    if s.len() - hash_start <= 40 {
        return None;
    }
    let hash_end = hash_start + 40;
    if Oid::from_chars(s, hash_start).is_none() || s[hash_end] != '\n' || !starts_at(
        s,
        hash_end + 1,
        "%: ",
    ) {
        return None;
    }
    let name_start = hash_end + 4;
    let name_end = scan(s, name_start, CharClass::Name(':'));
    if name_end == name_start {
        return None;
    }
    let mut list_end = name_end;
    if name_end < s.len() && s[name_end] == ':' {
        let items = find_items_end(s, name_end + 1);
        if name_end + 1 < items {
            list_end = items;
        }
    }
    let end = scan(s, list_end, CharClass::Not('\n'));
    Some(Found { start: pos, name_end, list_end, end })
}

/// Finds the first snippet comment that starts at or after `from`.
fn find_directive(s: &Vec<char>, from: usize) -> (r: Option<Found>)
    requires
        from <= s.len(),
    ensures
        match r {
            Some(found) => first_directive(s@, from as int) == Some(found.view()) && directive_at(
                s@,
                found.start as int,
            ) == Some(found.view()) && from <= found.start && found.view().name_start()
                < found.name_end <= found.list_end <= found.end <= s.len(),
            None => first_directive(s@, from as int) is None,
        },
{
    let mut pos: usize = from;
    while pos < s.len()
        invariant
            from <= pos <= s.len(),
            first_directive(s@, from as int) == first_directive(s@, pos as int),
        decreases s.len() - pos,
    {
        let found = read_directive(s, pos);
        if found.is_some() {
            return found;
        }
        pos += 1;
    }
    None
}

/// The texts of the snippet comments of `document`, in the order in which
/// they stand there.
pub fn find_comments(document: &str) -> (r: Vec<String>)
    ensures
        r.deep_view() == comments_from(document@, 0),
{
    let s = chars_of(document);
    let mut out: Vec<String> = Vec::new();
    let mut pos: usize = 0;
    loop
        invariant
            s@ == document@,
            pos <= s.len(),
            comments_from(s@, 0) == out.deep_view() + comments_from(s@, pos as int),
        ensures
            comments_from(s@, 0) == out.deep_view(),
        decreases s.len() - pos,
    {
        match find_directive(&s, pos) {
            None => {
                assert(out.deep_view() + Seq::<Seq<char>>::empty() =~= out.deep_view());
                break ;
            },
            Some(found) => {
                proof {
                    reveal_strlit("%: ");
                }
                let ghost before = out.deep_view();
                let ghost text = found.view().text(s@);
                out.push(slice_of(document, found.start, found.end));
                proof {
                    assert(out.deep_view() =~= before.push(text));
                    assert(before + (seq![text] + comments_from(s@, found.end as int))
                        =~= before.push(text) + comments_from(s@, found.end as int));
                }
                pos = found.end;
            },
        }
    }
    out
}

/// The token of a range of lines: its one number, or its two numbers with a
/// dash between them.
pub open spec fn range_text(range: (u32, u32)) -> Seq<char> {
    if range.0 == range.1 {
        decimal(range.0 as nat)
    } else {
        decimal(range.0 as nat) + "-"@ + decimal(range.1 as nat)
    }
}

/// The tokens of the first `k` ranges, with commas between them.
pub open spec fn ranges_text(ranges: Seq<(u32, u32)>, k: int) -> Seq<char>
    decreases k,
{
    if k <= 0 {
        Seq::empty()
    } else if k == 1 {
        range_text(ranges[0])
    } else {
        ranges_text(ranges, k - 1) + ","@ + range_text(ranges[k - 1])
    }
}

/// The smallest of the first lines of the first `k` ranges.
pub open spec fn least_first(ranges: Seq<(u32, u32)>, k: int) -> int
    decreases k,
{
    if k <= 1 {
        ranges[0].0 as int
    } else {
        at_most(least_first(ranges, k - 1), ranges[k - 1].0 as int)
    }
}

/// Each range starts at line 1 or later and does not end before it starts.
pub open spec fn well_formed(ranges: Seq<(u32, u32)>) -> bool {
    forall|i: int| 0 <= i < ranges.len() ==> 1 <= (#[trigger] ranges[i]).0 <= ranges[i].1
}

impl CommentView {
    /// The line at which the snippet starts: the smallest of the first
    /// lines of its ranges, or the line after the copyright notice.
    pub open spec fn first_line(self, lines: Seq<Seq<char>>) -> int {
        match self.line_ranges {
            None => start_line(lines, self.config.keep_copyright_comment),
            Some(ranges) => least_first(ranges, ranges.len() as int),
        }
    }

    /// The bodies of the snippet: one for each range, in the order of the
    /// ranges, or one for the whole file.
    pub open spec fn bodies(self, lines: Seq<Seq<char>>) -> Seq<(Seq<char>, u32, u32)> {
        match self.line_ranges {
            None => seq![
                (
                    excerpt(lines, self.first_line(lines), lines.len() as int),
                    self.first_line(lines) as u32,
                    lines.len() as u32,
                ),
            ],
            Some(ranges) => Seq::new(
                ranges.len(),
                |i: int|
                    (
                        excerpt(lines, ranges[i].0 as int, ranges[i].1 as int),
                        ranges[i].0,
                        ranges[i].1,
                    ),
            ),
        }
    }

    /// The scope lines of the snippet: those around its first line, or none
    /// where the options ask for none.
    pub open spec fn scopes(self, lines: Seq<Seq<char>>) -> Seq<(u32, Seq<char>)> {
        if self.config.no_scopes {
            Seq::empty()
        } else {
            scope_lines(lines, self.first_line(lines))
        }
    }

    /// The snippet can be cut from `content`. A whole file has the line at
    /// which the snippet starts, and no more lines than 32 bits count. Each
    /// range starts at line 1 or later and does not end before it starts;
    /// where scopes are asked for, there is a range, and the file has the
    /// first line of the snippet.
    pub open spec fn fits(self, content: Seq<char>) -> bool {
        let lines = lines_of(content);
        match self.line_ranges {
            None => self.first_line(lines) <= lines.len() <= u32::MAX,
            Some(ranges) => {
                &&& well_formed(ranges)
                &&& self.config.no_scopes || (ranges.len() > 0 && self.first_line(lines)
                    <= lines.len())
            },
        }
    }

    /// The snippet that the reference stands for in a file with the text `content`.
    pub open spec fn resolved(self, content: Seq<char>) -> TextView {
        TextView {
            hash: self.hash,
            filename: self.filename,
            language: self.config.language,
            info_comment_syntax: self.config.info_comment,
            highlight_lines: self.config.highlight_lines,
            scopes: self.scopes(lines_of(content)),
            bodies: self.bodies(lines_of(content)),
        }
    }

    /// The text that names the reference: the short form of the revision,
    /// the path, the ranges of lines and the options.
    pub open spec fn details(self) -> Seq<char> {
        hex_of(self.hash.subrange(0, 4)) + " "@ + self.filename + (match self.line_ranges {
            None => Seq::empty(),
            Some(ranges) => ":"@ + ranges_text(ranges, ranges.len() as int),
        }) + self.config.details()
    }
}

/// The smallest first line of some ranges lies between the bounds of all of them.
pub proof fn lemma_least_first(ranges: Seq<(u32, u32)>, k: int)
    requires
        1 <= k <= ranges.len(),
    ensures
        forall|i: int| 0 <= i < k ==> least_first(ranges, k) <= (#[trigger] ranges[i]).0,
        exists|i: int| 0 <= i < k && least_first(ranges, k) == (#[trigger] ranges[i]).0,
    decreases k,
{
    if k > 1 {
        lemma_least_first(ranges, k - 1);
        let i = choose|i: int|
            0 <= i < k - 1 && least_first(ranges, k - 1) == (#[trigger] ranges[i]).0;
        if least_first(ranges, k) == least_first(ranges, k - 1) {
            assert(least_first(ranges, k) == ranges[i].0);
        } else {
            assert(least_first(ranges, k) == ranges[k - 1].0);
        }
    } else {
        assert(least_first(ranges, k) == ranges[0].0);
    }
}

/// What the reading of a snippet comment gives, as the parser returns it.
pub open spec fn reading_of(r: Result<Option<Comment>, DirectiveError>) -> Option<
    Result<CommentView, DirectiveErrorView>,
> {
    match r {
        Ok(None) => None,
        Ok(Some(comment)) => Some(Ok(comment@)),
        Err(e) => Some(Err(e@)),
    }
}

/// Reads the parts of the snippet comment at `found`.
fn read_comment(input: &str, s: &Vec<char>, found: Found) -> (r: Result<Comment, DirectiveError>)
    requires
        s@ == input@,
        directive_at(s@, found.start as int) == Some(found.view()),
        found.view().name_start() < found.name_end <= found.list_end <= found.end <= s.len(),
    ensures
        match r {
            Ok(comment) => found.view().comment(s@) == Ok::<CommentView, DirectiveErrorView>(
                comment@,
            ),
            Err(e) => found.view().comment(s@) == Err::<CommentView, DirectiveErrorView>(e@),
        },
{
    proof {
        reveal_strlit("%: ");
        lemma_directive_span(s@, found.start as int);
    }
    let hash = match Oid::from_chars(s, found.start + 3) {
        Some(oid) => oid,
        None => unreached(),
    };
    let filename = slice_of(input, found.start + 47, found.name_end);
    let line_ranges = if found.list_end > found.name_end {
        let text = slice_of(input, found.name_end + 1, found.list_end);
        match parse_line_ranges(text.as_str()) {
            Err(_) => {
                return Err(DirectiveError::LineNumber);
            },
            Ok((_, ranges)) => Some(ranges),
        }
    } else {
        None
    };
    let options = slice_of(input, found.list_end, found.end);
    match Config::try_parse(options.as_str()) {
        Err(e) => Err(DirectiveError::Config(e)),
        Ok(config) => Ok(Comment { hash, filename, line_ranges, config }),
    }
}

impl Comment {
    /// Reads the first snippet comment of `comment`. Returns `None` where
    /// the text holds no snippet comment, and the error where it holds one
    /// that cannot be read: its first line number does not fit in 32 bits,
    /// or its options call an unknown macro or give a comment syntax that
    /// is none.
    pub fn try_from_latex_comment(comment: &str) -> (r: Result<Option<Self>, DirectiveError>)
        ensures
            reading_of(r) == comment_of(comment@),
    {
        let s = chars_of(comment);
        match find_directive(&s, 0) {
            None => Ok(None),
            Some(found) => match read_comment(comment, &s, found) {
                Ok(c) => Ok(Some(c)),
                Err(e) => Err(e),
            },
        }
    }

    /// Reads the first snippet comment of `comment`, which is most often
    /// that comment alone. Returns `None` where the text holds no snippet
    /// comment. The text must not hold one that cannot be read.
    pub fn from_latex_comment(comment: &str) -> (r: Option<Self>)
        requires
            !(comment_of(comment@) matches Some(Err(_))),
        ensures
            match r {
                None => comment_of(comment@) is None,
                Some(c) => comment_of(comment@) == Some(
                    Ok::<CommentView, DirectiveErrorView>(c@),
                ),
            },
    {
        match Self::try_from_latex_comment(comment) {
            Ok(found) => found,
            Err(_) => unreached(),
        }
    }

    /// Tests whether the snippet can be cut from `content`.
    pub fn fits(&self, content: &str) -> (r: bool)
        ensures
            r == self@.fits(content@),
    {
        let s = chars_of(content);
        let spans = line_spans(&s);
        match &self.line_ranges {
            None => {
                let first = find_start_line(&s, &spans, self.config.keep_copyright_comment);
                first as usize <= spans.len() && spans.len() <= 0xffff_ffff
            },
            Some(ranges) => {
                let mut least: u32 = 0;
                let mut i: usize = 0;
                while i < ranges.len()
                    invariant
                        i <= ranges.len(),
                        self@.line_ranges == Some(ranges@),
                        forall|k: int| 0 <= k < i ==> 1 <= (#[trigger] ranges[k]).0 <= ranges[k].1,
                        i > 0 ==> least == least_first(ranges@, i as int),
                    decreases ranges.len() - i,
                {
                    let (first, last) = ranges[i];
                    if first < 1 || first > last {
                        assert(ranges@[i as int] == (first, last));
                        return false;
                    }
                    if i == 0 || first < least {
                        least = first;
                    }
                    i += 1;
                }
                self.config.no_scopes || (ranges.len() > 0 && least as usize <= spans.len())
            },
        }
    }

    /// Cuts the snippet from the text `content` of its file at its
    /// revision: one body for each range of lines, or one for the whole
    /// file, without the copyright notice unless the options keep it, and
    /// the scope lines around the first line of the snippet.
    pub fn get_text(self, content: &str) -> (r: Text)
        requires
            self@.fits(content@),
        ensures
            r@ == self@.resolved(content@),
            (self@.line_ranges matches Some(ranges) ==> ranges.len() > 0) ==> r@.has_lines(),
    {
        let ghost view = self@;
        let ghost lines = lines_of(content@);
        let s = chars_of(content);
        let spans = line_spans(&s);
        let n = spans.len();
        let Comment { hash, filename, line_ranges, config } = self;
        let mut bodies: Vec<(String, u32, u32)> = Vec::new();
        let mut least: u32 = 0;
        match line_ranges {
            None => {
                let first = find_start_line(&s, &spans, config.keep_copyright_comment);
                let body = join_lines(content, &spans, (first - 1) as usize, n);
                bodies.push((body, first, n as u32));
                least = first;
                assert(bodies.deep_view() =~= view.bodies(lines));
            },
            Some(ranges) => {
                let mut i: usize = 0;
                while i < ranges.len()
                    invariant
                        i <= ranges.len(),
                        n == spans.len(),
                        s@ == content@,
                        spans_of(spans@, s@),
                        lines == lines_of(content@),
                        view.line_ranges == Some(ranges@),
                        forall|k: int|
                            0 <= k < ranges.len() ==> 1 <= (#[trigger] ranges[k]).0 <= ranges[k].1,
                        i > 0 ==> least == least_first(ranges@, i as int),
                        bodies.deep_view() == view.bodies(lines).subrange(0, i as int),
                    decreases ranges.len() - i,
                {
                    let (first, last) = ranges[i];
                    let lo = if ((first - 1) as usize) < n {
                        (first - 1) as usize
                    } else {
                        n
                    };
                    let hi = if (last as usize) < n {
                        last as usize
                    } else {
                        n
                    };
                    let body = join_lines(content, &spans, lo, hi);
                    let ghost before = bodies.deep_view();
                    bodies.push((body, first, last));
                    proof {
                        assert(bodies.deep_view() =~= before.push((body@, first, last)));
                        assert(view.bodies(lines).subrange(0, i + 1) =~= view.bodies(
                            lines,
                        ).subrange(0, i as int).push(view.bodies(lines)[i as int]));
                    }
                    if i == 0 || first < least {
                        least = first;
                    }
                    i += 1;
                }
                assert(view.bodies(lines).subrange(0, i as int) =~= view.bodies(lines));
                proof {
                    if ranges.len() > 0 {
                        lemma_least_first(ranges@, ranges.len() as int);
                    }
                }
            },
        }
        let scopes = if !config.no_scopes {
            find_scopes(content, &s, &spans, least)
        } else {
            Vec::new()
        };
        assert(scopes.deep_view() =~= view.scopes(lines));
        Text {
            hash,
            filename,
            language: config.language,
            info_comment_syntax: config.info_comment,
            highlight_lines: config.highlight_lines,
            scopes,
            bodies,
        }
    }

    /// The text that names the reference: the first four bytes of the
    /// revision, the path, the ranges of lines, if there are any, and the
    /// options.
    pub fn details(&self) -> (r: String)
        ensures
            r@ == self@.details(),
    {
        let mut out = self.hash.short_hex();
        out.append(" ");
        out.append(self.filename.as_str());
        if let Some(ranges) = &self.line_ranges {
            out.append(":");
            let ghost head = out@;
            let mut i: usize = 0;
            while i < ranges.len()
                invariant
                    i <= ranges.len(),
                    out@ == head + ranges_text(ranges@, i as int),
                decreases ranges.len() - i,
            {
                if i > 0 {
                    out.append(",");
                }
                let (first, last) = ranges[i];
                let ghost before = out@;
                append_decimal(&mut out, first as u64);
                if first != last {
                    out.append("-");
                    append_decimal(&mut out, last as u64);
                }
                assert(out@ =~= before + range_text(ranges@[i as int]));
                assert(out@ =~= head + ranges_text(ranges@, i + 1));
                i += 1;
            }
        }
        out.append(self.config.details().as_str());
        assert(out@ =~= self@.details());
        out
    }
}

} // verus!
