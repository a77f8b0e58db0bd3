//! Character classes and small operations on character sequences.
//!
//! Every grammar of this crate is stated over `Seq<char>`, the view of a
//! string. The executable scanners work on a `Vec<char>` copy of their input,
//! which gives constant-time indexing.

use vstd::prelude::*;
use vstd::string::*;

verus! {

/// A separator between option tokens: space, tab, carriage return or newline.
pub open spec fn space(c: char) -> bool {
    c == ' ' || c == '\t' || c == '\r' || c == '\n'
}

/// A Unicode white-space character. File paths and macro names hold none.
pub open spec fn whitespace(c: char) -> bool {
    let n = c as u32;
    (0x09 <= n <= 0x0d) || n == 0x20 || n == 0x85 || n == 0xa0 || n == 0x1680 || (0x2000 <= n
        <= 0x200a) || n == 0x2028 || n == 0x2029 || n == 0x202f || n == 0x205f || n == 0x3000
}

/// An ASCII letter.
pub open spec fn alpha(c: char) -> bool {
    let n = c as u32;
    (0x41 <= n <= 0x5a) || (0x61 <= n <= 0x7a)
}

/// An ASCII decimal digit.
pub open spec fn digit(c: char) -> bool {
    let n = c as u32;
    0x30 <= n <= 0x39
}

/// A lower-case hexadecimal digit.
pub open spec fn lower_hex(c: char) -> bool {
    let n = c as u32;
    (0x30 <= n <= 0x39) || (0x61 <= n <= 0x66)
}

/// A character of a list of highlighted lines: a digit, a comma or a dash.
pub open spec fn highlight_char(c: char) -> bool {
    digit(c) || c == ',' || c == '-'
}

/// Tests whether `c` separates option tokens.
#[verifier::when_used_as_spec(space)]
pub fn is_space(c: char) -> (r: bool)
    ensures
        r == space(c),
{
    c == ' ' || c == '\t' || c == '\r' || c == '\n'
}

/// Tests whether `c` is Unicode white space.
#[verifier::when_used_as_spec(whitespace)]
pub fn is_whitespace(c: char) -> (r: bool)
    ensures
        r == whitespace(c),
{
    let n: u32 = c as u32;
    (0x09 <= n && n <= 0x0d) || n == 0x20 || n == 0x85 || n == 0xa0 || n == 0x1680 || (0x2000 <= n
        && n <= 0x200a) || n == 0x2028 || n == 0x2029 || n == 0x202f || n == 0x205f || n == 0x3000
}

/// Tests whether `c` is an ASCII letter.
#[verifier::when_used_as_spec(alpha)]
pub fn is_alpha(c: char) -> (r: bool)
    ensures
        r == alpha(c),
{
    let n: u32 = c as u32;
    (0x41 <= n && n <= 0x5a) || (0x61 <= n && n <= 0x7a)
}

/// Tests whether `c` is an ASCII decimal digit.
#[verifier::when_used_as_spec(digit)]
pub fn is_digit(c: char) -> (r: bool)
    ensures
        r == digit(c),
{
    let n: u32 = c as u32;
    0x30 <= n && n <= 0x39
}

/// Tests whether `c` is a lower-case hexadecimal digit.
#[verifier::when_used_as_spec(lower_hex)]
pub fn is_lower_hex(c: char) -> (r: bool)
    ensures
        r == lower_hex(c),
{
    let n: u32 = c as u32;
    (0x30 <= n && n <= 0x39) || (0x61 <= n && n <= 0x66)
}

/// Tests whether `c` is a digit, a comma or a dash.
#[verifier::when_used_as_spec(highlight_char)]
pub fn is_highlight_char(c: char) -> (r: bool)
    ensures
        r == highlight_char(c),
{
    is_digit(c) || c == ',' || c == '-'
}

/// A class of characters that a scanner runs over.
#[derive(Clone, Copy, Debug, PartialEq, Eq)]
pub enum CharClass {
    /// ASCII decimal digits.
    Digit,
    /// ASCII letters.
    Alpha,
    /// Digits, commas and dashes.
    Highlight,
    /// Separators between option tokens.
    Space,
    /// Unicode white space.
    White,
    /// The given character alone.
    Is(char),
    /// Every character but the given one.
    Not(char),
    /// Every character but white space and the given one.
    Name(char),
    /// Every character but the two braces.
    Plain,
}

impl CharClass {
    /// `c` belongs to the class.
    pub open spec fn has(self, c: char) -> bool {
        match self {
            CharClass::Digit => digit(c),
            CharClass::Alpha => alpha(c),
            CharClass::Highlight => highlight_char(c),
            CharClass::Space => space(c),
            CharClass::White => whitespace(c),
            CharClass::Is(x) => c == x,
            CharClass::Not(x) => c != x,
            CharClass::Name(x) => !whitespace(c) && c != x,
            CharClass::Plain => c != '{' && c != '}',
        }
    }

    /// Tests whether `c` belongs to the class.
    pub fn holds(self, c: char) -> (r: bool)
        ensures
            r == self.has(c),
    {
        match self {
            CharClass::Digit => is_digit(c),
            CharClass::Alpha => is_alpha(c),
            CharClass::Highlight => is_highlight_char(c),
            CharClass::Space => is_space(c),
            CharClass::White => is_whitespace(c),
            CharClass::Is(x) => c == x,
            CharClass::Not(x) => c != x,
            CharClass::Name(x) => !is_whitespace(c) && c != x,
            CharClass::Plain => c != '{' && c != '}',
        }
    }
}

/// Every character of `s` belongs to `class`.
pub open spec fn all_in(s: Seq<char>, class: CharClass) -> bool {
    forall|i: int| 0 <= i < s.len() ==> class.has(#[trigger] s[i])
}

/// The end of the longest run of characters of `class` that starts at
/// `from`: the first position at or after `from` whose character is outside
/// the class, or the length of `s`.
pub open spec fn run_end(s: Seq<char>, from: int, class: CharClass) -> int
    decreases s.len() - from,
{
    if 0 <= from < s.len() && class.has(s[from]) {
        run_end(s, from + 1, class)
    } else {
        from
    }
}

/// What `run_end` returns: a position between `from` and the end, with the
/// class holding before it and failing at it.
pub proof fn lemma_run_end(s: Seq<char>, from: int, class: CharClass)
    requires
        0 <= from <= s.len(),
    ensures
        from <= run_end(s, from, class) <= s.len(),
        forall|i: int| from <= i < run_end(s, from, class) ==> class.has(#[trigger] s[i]),
        run_end(s, from, class) < s.len() ==> !class.has(s[run_end(s, from, class)]),
    decreases s.len() - from,
{
    if from < s.len() && class.has(s[from]) {
        lemma_run_end(s, from + 1, class);
    }
}

/// A position with the class holding before it and failing at it is the
/// end of the run.
pub proof fn lemma_run_end_is(s: Seq<char>, from: int, class: CharClass, end: int)
    requires
        0 <= from <= end <= s.len(),
        forall|i: int| from <= i < end ==> class.has(#[trigger] s[i]),
        end < s.len() ==> !class.has(s[end]),
    ensures
        run_end(s, from, class) == end,
    decreases end - from,
{
    if from < end {
        lemma_run_end_is(s, from + 1, class, end);
    }
}

/// Scans the run of characters of `class` that starts at `from`.
pub fn scan(s: &Vec<char>, from: usize, class: CharClass) -> (end: usize)
    requires
        from <= s.len(),
    ensures
        end as int == run_end(s@, from as int, class),
        from <= end <= s.len(),
{
    let mut k: usize = from;
    while k < s.len() && class.holds(s[k])
        invariant
            from <= k <= s.len(),
            forall|i: int| from <= i < k ==> class.has(#[trigger] s@[i]),
        decreases s.len() - k,
    {
        k += 1;
    }
    proof {
        lemma_run_end_is(s@, from as int, class, k as int);
    }
    k
}

/// The characters of `s`, in order.
pub fn chars_of(s: &str) -> (r: Vec<char>)
    ensures
        r@ == s@,
{
    let mut v: Vec<char> = Vec::new();
    for c in it: s.chars()
        invariant
            v@ == it.seq().take(it.index()),
            it.seq() == s@,
    {
        v.push(c);
    }
    v
}

/// The characters `s[from..to]` as an owned string.
pub fn slice_of(s: &str, from: usize, to: usize) -> (r: String)
    requires
        from <= to <= s@.len(),
    ensures
        r@ == s@.subrange(from as int, to as int),
{
    s.substring_char(from, to).to_owned()
}

/// `pat` stands in `s` at position `pos`.
pub open spec fn has_at(s: Seq<char>, pos: int, pat: Seq<char>) -> bool {
    0 <= pos && pos + pat.len() <= s.len() && s.subrange(pos, pos + pat.len()) == pat
}

/// `pat` occurs somewhere in `s`.
pub open spec fn contains_seq(s: Seq<char>, pat: Seq<char>) -> bool {
    exists|i: int| has_at(s, i, pat)
}

/// Tests whether `pat` stands in `s` at position `pos`.
pub fn starts_at(s: &Vec<char>, pos: usize, pat: &str) -> (r: bool)
    ensures
        r == has_at(s@, pos as int, pat@),
{
    let p = chars_of(pat);
    if pos > s.len() || p.len() > s.len() - pos {
        return false;
    }
    let mut k: usize = 0;
    while k < p.len()
        invariant
            k <= p.len(),
            pos + p.len() <= s.len(),
            p@ == pat@,
            forall|j: int| 0 <= j < k ==> s@[pos + j] == p@[j],
        decreases p.len() - k,
    {
        if s[pos + k] != p[k] {
            proof {
                let sub = s@.subrange(pos as int, pos + p@.len());
                assert(sub[k as int] == s@[pos + k]);
            }
            return false;
        }
        k += 1;
    }
    assert(s@.subrange(pos as int, pos + p@.len()) =~= p@);
    true
}

/// Tests whether `pat` occurs somewhere in `s`.
pub fn contains(s: &Vec<char>, pat: &str) -> (r: bool)
    ensures
        r == contains_seq(s@, pat@),
{
    let mut i: usize = 0;
    while i < s.len()
        invariant
            i <= s.len(),
            forall|j: int| 0 <= j < i ==> !has_at(s@, j, pat@),
        decreases s.len() - i,
    {
        if starts_at(s, i, pat) {
            return true;
        }
        i += 1;
    }
    starts_at(s, i, pat)
}

/// Every character of `s` is an ASCII character.
pub open spec fn ascii(s: Seq<char>) -> bool {
    forall|i: int| 0 <= i < s.len() ==> (#[trigger] s[i]) as u32 <= 0x7f
}

/// The lower-case form of an ASCII capital letter; any other character
/// unchanged.
pub open spec fn ascii_lower(c: char) -> char {
    if c == 'A' {
        'a'
    } else if c == 'B' {
        'b'
    } else if c == 'C' {
        'c'
    } else if c == 'D' {
        'd'
    } else if c == 'E' {
        'e'
    } else if c == 'F' {
        'f'
    } else if c == 'G' {
        'g'
    } else if c == 'H' {
        'h'
    } else if c == 'I' {
        'i'
    } else if c == 'J' {
        'j'
    } else if c == 'K' {
        'k'
    } else if c == 'L' {
        'l'
    } else if c == 'M' {
        'm'
    } else if c == 'N' {
        'n'
    } else if c == 'O' {
        'o'
    } else if c == 'P' {
        'p'
    } else if c == 'Q' {
        'q'
    } else if c == 'R' {
        'r'
    } else if c == 'S' {
        's'
    } else if c == 'T' {
        't'
    } else if c == 'U' {
        'u'
    } else if c == 'V' {
        'v'
    } else if c == 'W' {
        'w'
    } else if c == 'X' {
        'x'
    } else if c == 'Y' {
        'y'
    } else if c == 'Z' {
        'z'
    } else {
        c
    }
}

/// `s` with every ASCII capital letter replaced by its lower-case form.
pub open spec fn ascii_lowercase(s: Seq<char>) -> Seq<char> {
    Seq::new(s.len(), |i: int| ascii_lower(s[i]))
}

/// The lower-case form of a string that holds characters outside ASCII, as
/// the standard library computes it from the Unicode tables.
pub uninterp spec fn lowercase_of(s: Seq<char>) -> Seq<char>;

/// The lower-case form of `s`.
pub open spec fn lowercase(s: Seq<char>) -> Seq<char> {
    if ascii(s) {
        ascii_lowercase(s)
    } else {
        lowercase_of(s)
    }
}

/// `str::to_lowercase`: the lower-case form of `s`. Of an ASCII string the
/// contract says which string that is: the capital letters `A` to `Z` are
/// replaced by `a` to `z` and nothing else changes. Of any other string it
/// only gives the result a name. Neither is proved here.
#[verifier::external_body]
pub(crate) fn to_lowercase(s: &str) -> (r: String)
    ensures
        ascii(s@) ==> r@ == ascii_lowercase(s@),
        !ascii(s@) ==> r@ == lowercase_of(s@),
{
    s.to_lowercase()
}

/// Lowering an ASCII string twice is lowering it once.
pub proof fn lemma_ascii_lowercase_idempotent(s: Seq<char>)
    ensures
        ascii(s) ==> ascii(ascii_lowercase(s)),
        ascii_lowercase(ascii_lowercase(s)) == ascii_lowercase(s),
{
    assert(ascii_lowercase(ascii_lowercase(s)) =~= ascii_lowercase(s));
    if ascii(s) {
        assert forall|i: int| 0 <= i < s.len() implies (#[trigger] ascii_lowercase(s)[i]) as u32
            <= 0x7f by {
            assert(s[i] as u32 <= 0x7f);
        }
    }
}

/// The character that stands for the digit `d`.
pub open spec fn digit_char(d: int) -> char {
    if d == 0 {
        '0'
    } else if d == 1 {
        '1'
    } else if d == 2 {
        '2'
    } else if d == 3 {
        '3'
    } else if d == 4 {
        '4'
    } else if d == 5 {
        '5'
    } else if d == 6 {
        '6'
    } else if d == 7 {
        '7'
    } else if d == 8 {
        '8'
    } else {
        '9'
    }
}

/// The decimal numeral of `n`, without leading zeros.
pub open spec fn decimal(n: nat) -> Seq<char>
    decreases n,
{
    if n < 10 {
        seq![digit_char(n as int)]
    } else {
        decimal(n / 10).push(digit_char((n % 10) as int))
    }
}

/// The decimal numeral of `n`, with a leading minus sign where `n` is negative.
pub open spec fn signed_decimal(n: int) -> Seq<char> {
    if n < 0 {
        seq!['-'] + decimal((-n) as nat)
    } else {
        decimal(n as nat)
    }
}

/// The value of a digit character.
pub open spec fn digit_value(c: char) -> int {
    c as u32 - 0x30
}

/// The number that a string of decimal digits denotes.
pub open spec fn number(s: Seq<char>) -> nat
    decreases s.len(),
{
    if s.len() == 0 {
        0
    } else {
        (number(s.drop_last()) * 10 + digit_value(s.last())) as nat
    }
}

/// The numeral of one digit.
fn digit_str(d: u8) -> (r: &'static str)
    requires
        d < 10,
    ensures
        r@ == seq![digit_char(d as int)],
{
    proof {
        reveal_strlit("0");
        reveal_strlit("1");
        reveal_strlit("2");
        reveal_strlit("3");
        reveal_strlit("4");
        reveal_strlit("5");
        reveal_strlit("6");
        reveal_strlit("7");
        reveal_strlit("8");
        reveal_strlit("9");
    }
    let r = if d == 0 {
        "0"
    } else if d == 1 {
        "1"
    } else if d == 2 {
        "2"
    } else if d == 3 {
        "3"
    } else if d == 4 {
        "4"
    } else if d == 5 {
        "5"
    } else if d == 6 {
        "6"
    } else if d == 7 {
        "7"
    } else if d == 8 {
        "8"
    } else {
        "9"
    };
    assert(r@ =~= seq![digit_char(d as int)]);
    r
}

/// Appends the decimal numeral of `n` to `out`.
pub fn append_decimal(out: &mut String, n: u64)
    ensures
        final(out)@ == old(out)@ + decimal(n as nat),
    decreases n,
{
    if n >= 10 {
        append_decimal(out, n / 10);
    }
    out.append(digit_str((n % 10) as u8));
    proof {
        if n >= 10 {
            assert(decimal(n as nat) =~= decimal((n / 10) as nat) + seq![
                digit_char((n % 10) as int),
            ]);
        }
    }
}

/// Appends the decimal numeral of `n`, signed where negative, to `out`.
pub fn append_signed_decimal(out: &mut String, n: i64)
    ensures
        final(out)@ == old(out)@ + signed_decimal(n as int),
{
    if n < 0 {
        proof {
            reveal_strlit("-");
        }
        out.append("-");
        assert("-"@ =~= seq!['-']);
        let m: u64 = if n == i64::MIN {
            9223372036854775808u64
        } else {
            (-n) as u64
        };
        append_decimal(out, m);
    } else {
        append_decimal(out, n as u64);
    }
}

} // verus!
