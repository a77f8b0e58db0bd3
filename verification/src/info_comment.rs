//! The syntax of the informational comment that heads every rendered snippet.

use crate::chars::{chars_of, lemma_run_end, lemma_run_end_is, run_end, scan, slice_of, CharClass};
use vstd::prelude::*;
use vstd::string::*;

verus! {

/// The text put before and after each informational comment line.
///
/// Neither part should hold a newline: each comment is one line. Spacing
/// around the comment belongs to the parts, since none is added later.
///
/// In an option string the syntax is written `comment="<!-- {} -->"`, where
/// `{}` marks the place of the comment itself.
#[derive(Clone, Debug, PartialEq, Eq)]
pub struct InfoCommentSyntax {
    /// The fragment of syntax before the comment.
    pub before: String,
    /// The fragment of syntax after the comment.
    pub after: String,
}

/// The mathematical value of an [`InfoCommentSyntax`].
pub struct InfoCommentSyntaxView {
    pub before: Seq<char>,
    pub after: Seq<char>,
}

impl View for InfoCommentSyntax {
    type V = InfoCommentSyntaxView;

    open spec fn view(&self) -> InfoCommentSyntaxView {
        InfoCommentSyntaxView { before: self.before@, after: self.after@ }
    }
}

impl InfoCommentSyntaxView {
    /// The default syntax: a leading `# ` and nothing after.
    pub open spec fn default_syntax() -> InfoCommentSyntaxView {
        InfoCommentSyntaxView { before: "# "@, after: Seq::empty() }
    }

    /// `s` is a syntax pattern: one `{}` with no other brace before or after it.
    pub open spec fn accepts(s: Seq<char>) -> bool {
        let k = run_end(s, 0, CharClass::Plain);
        k + 2 <= s.len() && s[k] == '{' && s[k + 1] == '}' && run_end(s, k + 2, CharClass::Plain)
            == s.len()
    }

    /// The syntax that the pattern `s` denotes: what stands before its `{}`
    /// and what stands after.
    pub open spec fn of_pattern(s: Seq<char>) -> InfoCommentSyntaxView {
        let k = run_end(s, 0, CharClass::Plain);
        InfoCommentSyntaxView { before: s.subrange(0, k), after: s.subrange(k + 2, s.len() as int) }
    }

    /// The pattern that denotes this syntax.
    pub open spec fn pattern(self) -> Seq<char> {
        self.before + seq!['{', '}'] + self.after
    }

    /// Neither part holds a brace.
    pub open spec fn brace_free(self) -> bool {
        &&& forall|i: int| 0 <= i < self.before.len() ==> CharClass::Plain.has(#[trigger] self.before[i])
        &&& forall|i: int| 0 <= i < self.after.len() ==> CharClass::Plain.has(#[trigger] self.after[i])
    }

    /// A pattern that is accepted is the pattern of the syntax it denotes,
    /// and that syntax holds no brace.
    pub proof fn lemma_pattern_of_accepted(s: Seq<char>)
        requires
            Self::accepts(s),
        ensures
            Self::of_pattern(s).pattern() == s,
            Self::of_pattern(s).brace_free(),
    {
        let k = run_end(s, 0, CharClass::Plain);
        lemma_run_end(s, 0, CharClass::Plain);
        lemma_run_end(s, k + 2, CharClass::Plain);
        assert(Self::of_pattern(s).pattern() =~= s);
    }

    /// The pattern of a syntax without braces is accepted and denotes that syntax.
    pub proof fn lemma_accepts_pattern(self)
        requires
            self.brace_free(),
        ensures
            Self::accepts(self.pattern()),
            Self::of_pattern(self.pattern()) == self,
    {
        let s = self.pattern();
        let k = self.before.len() as int;
        assert forall|i: int| 0 <= i < k implies CharClass::Plain.has(#[trigger] s[i]) by {
            assert(s[i] == self.before[i]);
        }
        assert(s[k] == '{');
        assert(s[k + 1] == '}');
        lemma_run_end_is(s, 0, CharClass::Plain, k);
        assert forall|i: int| k + 2 <= i < s.len() implies CharClass::Plain.has(#[trigger] s[i]) by {
            assert(s[i] == self.after[i - k - 2]);
        }
        lemma_run_end_is(s, k + 2, CharClass::Plain, s.len() as int);
        assert(s.subrange(0, k) =~= self.before);
        assert(s.subrange(k + 2, s.len() as int) =~= self.after);
    }
}

impl Default for InfoCommentSyntax {
    /// The default syntax: a leading `# ` and nothing after.
    fn default() -> (r: Self)
        ensures
            r@ == InfoCommentSyntaxView::default_syntax(),
    {
        InfoCommentSyntax { before: "# ".to_owned(), after: String::new() }
    }
}

impl InfoCommentSyntax {
    /// Reads a syntax pattern, such as `<!-- {} -->`: what stands before its
    /// `{}` and what stands after. The pattern must hold one `{}` and no
    /// other brace.
    pub fn parse(input: &str) -> (r: Self)
        requires
            InfoCommentSyntaxView::accepts(input@),
        ensures
            r@ == InfoCommentSyntaxView::of_pattern(input@),
    {
        let s = chars_of(input);
        let k = scan(&s, 0, CharClass::Plain);
        InfoCommentSyntax { before: slice_of(input, 0, k), after: slice_of(input, k + 2, s.len()) }
    }

    /// Tests whether `input` is a syntax pattern: one `{}` and no other brace.
    pub fn accepts(input: &str) -> (r: bool)
        ensures
            r == InfoCommentSyntaxView::accepts(input@),
    {
        let s = chars_of(input);
        let k = scan(&s, 0, CharClass::Plain);
        if s.len() - k < 2 || s[k] != '{' || s[k + 1] != '}' {
            return false;
        }
        scan(&s, k + 2, CharClass::Plain) == s.len()
    }

    /// Reads a syntax pattern if `input` is one.
    pub fn try_parse(input: &str) -> (r: Option<Self>)
        ensures
            r is Some <==> InfoCommentSyntaxView::accepts(input@),
            r matches Some(syntax) ==> syntax@ == InfoCommentSyntaxView::of_pattern(input@),
    {
        if Self::accepts(input) {
            Some(Self::parse(input))
        } else {
            None
        }
    }

    /// Tests whether this is the default syntax.
    pub fn is_default(&self) -> (r: bool)
        ensures
            r == (self@ == InfoCommentSyntaxView::default_syntax()),
    {
        let d = Self::default();
        self.before == d.before && self.after == d.after
    }
}

} // verus!
