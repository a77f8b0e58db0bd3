//! Revision identifiers: twenty bytes, written as forty hexadecimal digits.

use crate::chars::{chars_of, is_lower_hex, lower_hex};
use vstd::prelude::*;
use vstd::slice::slice_subrange;

verus! {

/// The hexadecimal digit for `n`, lower case.
pub open spec fn hex_digit(n: int) -> char {
    if n == 0 {
        '0'
    } else if n == 1 {
        '1'
    } else if n == 2 {
        '2'
    } else if n == 3 {
        '3'
    } else if n == 4 {
        '4'
    } else if n == 5 {
        '5'
    } else if n == 6 {
        '6'
    } else if n == 7 {
        '7'
    } else if n == 8 {
        '8'
    } else if n == 9 {
        '9'
    } else if n == 10 {
        'a'
    } else if n == 11 {
        'b'
    } else if n == 12 {
        'c'
    } else if n == 13 {
        'd'
    } else if n == 14 {
        'e'
    } else {
        'f'
    }
}

/// The value of a lower-case hexadecimal digit.
pub open spec fn hex_value(c: char) -> int {
    let n = c as u32;
    if n <= 0x39 {
        n - 0x30
    } else {
        n - 0x61 + 10
    }
}

/// The lower-case hexadecimal text of `bytes`: two digits for each byte,
/// the high half first.
pub open spec fn hex_of(bytes: Seq<u8>) -> Seq<char> {
    Seq::new(
        2 * bytes.len(),
        |i: int|
            if i % 2 == 0 {
                hex_digit(bytes[i / 2] as int / 16)
            } else {
                hex_digit(bytes[i / 2] as int % 16)
            },
    )
}

/// The bytes that the hexadecimal text `s` denotes.
pub open spec fn bytes_of_hex(s: Seq<char>) -> Seq<u8> {
    Seq::new(s.len() / 2, |i: int| (16 * hex_value(s[2 * i]) + hex_value(s[2 * i + 1])) as u8)
}

/// `s` is made of lower-case hexadecimal digits only.
pub open spec fn all_lower_hex(s: Seq<char>) -> bool {
    forall|i: int| 0 <= i < s.len() ==> lower_hex(#[trigger] s[i])
}

/// `s` is the text of a revision identifier: forty lower-case hexadecimal digits.
pub open spec fn is_oid_text(s: Seq<char>) -> bool {
    s.len() == 40 && all_lower_hex(s)
}

/// Writing a digit and reading it back gives the digit.
pub proof fn lemma_hex_digit_round_trip(c: char)
    requires
        lower_hex(c),
    ensures
        0 <= hex_value(c) < 16,
        hex_digit(hex_value(c)) == c,
{
}

/// Decoding hexadecimal text and encoding the bytes again gives the text.
pub proof fn lemma_hex_round_trip(s: Seq<char>)
    requires
        all_lower_hex(s),
        s.len() % 2 == 0,
    ensures
        hex_of(bytes_of_hex(s)) == s,
{
    let b = bytes_of_hex(s);
    assert forall|i: int| 0 <= i < s.len() implies hex_of(b)[i] == s[i] by {
        let k = i / 2;
        lemma_hex_digit_round_trip(s[2 * k]);
        lemma_hex_digit_round_trip(s[2 * k + 1]);
        let v = 16 * hex_value(s[2 * k]) + hex_value(s[2 * k + 1]);
        assert(b[k] as int == v);
        assert(v / 16 == hex_value(s[2 * k]));
        assert(v % 16 == hex_value(s[2 * k + 1]));
    }
    assert(hex_of(b) =~= s);
}

/// `hex::encode`: the text of `data` in lower-case hexadecimal digits, two
/// for each byte, the high half first. The contract is the crate's
/// documented behaviour; it is not proved here.
#[verifier::external_body]
pub(crate) fn hex_encode(data: &[u8]) -> (r: String)
    ensures
        r@ == hex_of(data@),
{
    hex::encode(data)
}

/// A revision identifier.
#[derive(Clone, Copy, Debug, PartialEq, Eq)]
pub struct Oid {
    pub raw: [u8; 20],
}

impl View for Oid {
    type V = Seq<u8>;

    open spec fn view(&self) -> Seq<u8> {
        self.raw@
    }
}

fn hex_value_of(c: char) -> (r: u8)
    requires
        lower_hex(c),
    ensures
        r as int == hex_value(c),
        r < 16,
{
    let n: u32 = c as u32;
    if n <= 0x39 {
        (n - 0x30) as u8
    } else {
        (n - 0x61 + 10) as u8
    }
}

impl Oid {
    /// Reads a revision identifier from its text. The text is accepted if
    /// and only if it is forty lower-case hexadecimal digits.
    pub fn from_str(s: &str) -> (r: Option<Oid>)
        ensures
            r is Some <==> is_oid_text(s@),
            r matches Some(oid) ==> oid@ == bytes_of_hex(s@) && hex_of(oid@) == s@,
    {
        let cs = chars_of(s);
        if cs.len() != 40 {
            return None;
        }
        assert(s@.subrange(0, 40) =~= s@);
        Oid::from_chars(&cs, 0)
    }

    /// Reads a revision identifier from the forty characters of `s` that
    /// start at `pos`.
    pub(crate) fn from_chars(s: &Vec<char>, pos: usize) -> (r: Option<Oid>)
        requires
            pos <= s.len(),
        ensures
            r is Some <==> pos + 40 <= s.len() && all_lower_hex(s@.subrange(pos as int, pos + 40)),
            r matches Some(oid) ==> {
                let text = s@.subrange(pos as int, pos + 40);
                oid@ == bytes_of_hex(text) && hex_of(oid@) == text
            },
    {
        if s.len() - pos < 40 {
            return None;
        }
        let ghost text = s@.subrange(pos as int, pos + 40);
        let mut raw: [u8; 20] = [0u8; 20];
        let mut i: usize = 0;
        while i < 20
            invariant
                i <= 20,
                pos + 40 <= s.len(),
                text == s@.subrange(pos as int, pos + 40),
                forall|j: int| 0 <= j < 2 * i ==> lower_hex(#[trigger] text[j]),
                forall|j: int| 0 <= j < i ==> raw@[j] == bytes_of_hex(text)[j],
            decreases 20 - i,
        {
            let hi = s[pos + 2 * i];
            let lo = s[pos + 2 * i + 1];
            assert(hi == text[2 * i]);
            assert(lo == text[2 * i + 1]);
            if !is_lower_hex(hi) || !is_lower_hex(lo) {
                return None;
            }
            raw[i] = 16 * hex_value_of(hi) + hex_value_of(lo);
            i += 1;
        }
        proof {
            assert(raw@ =~= bytes_of_hex(text));
            lemma_hex_round_trip(text);
        }
        Some(Oid { raw })
    }

    /// The identifier as forty lower-case hexadecimal digits.
    pub fn to_hex(&self) -> (r: String)
        ensures
            r@ == hex_of(self@),
            r@.len() == 40,
    {
        hex_encode(self.raw.as_slice())
    }

    /// The short form of the identifier: the first four bytes as eight
    /// lower-case hexadecimal digits.
    pub fn short_hex(&self) -> (r: String)
        ensures
            r@ == hex_of(self@.subrange(0, 4)),
            r@.len() == 8,
    {
        hex_encode(slice_subrange(self.raw.as_slice(), 0, 4))
    }
}

} // verus!
