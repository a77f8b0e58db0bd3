//! Writing a configuration as an option string and reading it again.
//!
//! [`ConfigView::details`] writes one token for each field that differs
//! from its default. The laws of this module say when the tokens read back
//! as the fields that they were written for.

use crate::chars::{
    all_in, ascii, ascii_lowercase, contains_seq, has_at, lemma_ascii_lowercase_idempotent,
    lemma_run_end, lemma_run_end_is, run_end, CharClass,
};
use crate::config::{
    comment_key, highlight_key, keep_keyword, keyed_value_at, language_key,
    language_tag, lemma_token_end, lemma_value_span, lexer_marker, noscopes_keyword, outcome,
    parsed, quoted_end, read_from, token_at, value_at, with_space, ConfigErrorView, ConfigMacro,
    ConfigOptionView, ConfigView, Outcome, Token, ValueSpan,
};
use crate::info_comment::InfoCommentSyntaxView;
use vstd::prelude::*;

verus! {

impl ConfigView {
    /// Each field that differs from its default can be written as a token
    /// that the grammar knows. The language holds a space and no double
    /// quote, or it is a word of ASCII letters. The parts of the comment
    /// syntax hold no brace and no double quote. The highlighted lines are
    /// written in digits, commas and dashes, at least one of them.
    pub open spec fn writable(self) -> bool {
        &&& self.language == "python"@ || (contains_seq(self.language, " "@) && all_in(
            self.language,
            CharClass::Not('"'),
        )) || (!contains_seq(self.language, " "@) && self.language.len() > 0 && all_in(
            self.language,
            CharClass::Alpha,
        ))
        &&& self.info_comment == InfoCommentSyntaxView::default_syntax() || (
        self.info_comment.brace_free() && all_in(self.info_comment.before, CharClass::Not('"'))
            && all_in(self.info_comment.after, CharClass::Not('"')))
        &&& match self.highlight_lines {
            Some(lines) => lines.len() > 0 && all_in(lines, CharClass::Highlight),
            None => true,
        }
    }

    /// The configuration with the case of its language folded once more,
    /// as the reading of a `language=` token folds it.
    pub open spec fn refolded(self) -> ConfigView {
        ConfigView { language: language_tag(self.language), ..self }
    }
}

/// `text` is a way to write `option`: wherever `text` stands in a string,
/// followed by a space or by the end of the string, the token that starts
/// there is `text`, and it means `option`.
pub open spec fn writes(text: Seq<char>, option: ConfigOptionView) -> bool {
    &&& text.len() > 0
    &&& !CharClass::Space.has(text[0])
    &&& forall|s: Seq<char>, pos: int|
        has_at(s, pos, text) && (pos + text.len() == s.len() || s[pos + text.len()] == ' ')
            ==> (#[trigger] token_at(s, pos) matches Some((token, end)) && end == pos + text.len()
            && token.option() == Ok::<ConfigOptionView, ConfigErrorView>(option))
}

/// `rest` is empty, or a space and something that is no white space.
pub open spec fn starts_token(rest: Seq<char>) -> bool {
    rest.len() == 0 || (rest.len() > 1 && rest[0] == ' ' && !CharClass::Space.has(rest[1]))
}

/// Reading one written token: the reading goes on behind it, or ends with
/// it where nothing follows.
pub proof fn lemma_read_written(
    s: Seq<char>,
    pos: int,
    text: Seq<char>,
    option: ConfigOptionView,
    rest: Seq<char>,
    config: ConfigView,
)
    requires
        0 <= pos <= s.len(),
        s.subrange(pos, s.len() as int) == seq![' '] + text + rest,
        writes(text, option),
        starts_token(rest),
    ensures
        read_from(s, pos + 1, config) == if rest.len() == 0 {
            Outcome::Done(option.applied(config))
        } else {
            read_from(s, pos + 1 + text.len() + 1, option.applied(config))
        },
        rest.len() > 0 ==> s.subrange(pos + 1 + text.len(), s.len() as int) == rest,
{
    let tail = s.subrange(pos, s.len() as int);
    let whole = seq![' '] + text + rest;
    let end = pos + 1 + text.len();
    assert(tail.len() == whole.len());
    assert(s.subrange(pos + 1, end) =~= text) by {
        assert forall|i: int| 0 <= i < text.len() implies s.subrange(pos + 1, end)[i] == text[i] by {
            assert(tail[i + 1] == whole[i + 1]);
        }
    }
    assert(has_at(s, pos + 1, text));
    if rest.len() > 0 {
        assert(tail[end - pos] == whole[end - pos]);
        assert(s[end] == ' ');
        assert(tail[end - pos + 1] == whole[end - pos + 1]);
        assert(!CharClass::Space.has(s[end + 1]));
        assert(CharClass::Space.has(s[end]));
        lemma_run_end_is(s, end, CharClass::Space, end + 1);
        assert(s.subrange(end, s.len() as int) =~= rest) by {
            assert forall|i: int| 0 <= i < rest.len() implies s.subrange(end, s.len() as int)[i]
                == rest[i] by {
                assert(tail[i + 1 + text.len()] == whole[i + 1 + text.len()]);
            }
        }
    } else {
        assert(end == s.len());
        assert(run_end(s, end, CharClass::Space) == end);
    }
    assert(token_at(s, pos + 1) is Some);
}

/// The keyword of the first flag writes that flag.
pub proof fn lemma_writes_keep()
    ensures
        writes(keep_keyword(), ConfigOptionView::KeepCopyrightComment),
{
    reveal_strlit("keep_copyright_comment");
}

/// The keyword of the second flag writes that flag.
pub proof fn lemma_writes_noscopes()
    ensures
        writes(noscopes_keyword(), ConfigOptionView::NoScopes),
{
    reveal_strlit("keep_copyright_comment");
    reveal_strlit("noscopes");
    let text = noscopes_keyword();
    assert forall|s: Seq<char>, pos: int|
        has_at(s, pos, text) && (pos + text.len() == s.len() || s[pos + text.len()] == ' ')
        implies (#[trigger] token_at(s, pos) matches Some((token, end)) && end == pos + text.len()
        && token.option() == Ok::<ConfigOptionView, ConfigErrorView>(
        ConfigOptionView::NoScopes,
    )) by {
        lemma_first_char(s, pos, text);
        if has_at(s, pos, keep_keyword()) {
            lemma_first_char(s, pos, keep_keyword());
        }
    }
}

/// A text that stands at `pos` has its first character there.
pub proof fn lemma_first_char(s: Seq<char>, pos: int, text: Seq<char>)
    requires
        has_at(s, pos, text),
        text.len() > 0,
    ensures
        0 <= pos < s.len(),
        s[pos] == text[0],
{
    assert(s.subrange(pos, pos + text.len())[0] == text[0]);
}

/// The text `front + back` stands at `pos` exactly where `front` stands at
/// `pos` and `back` behind it.
pub proof fn lemma_has_at_concat(s: Seq<char>, pos: int, front: Seq<char>, back: Seq<char>)
    requires
        has_at(s, pos, front + back),
    ensures
        has_at(s, pos, front),
        has_at(s, pos + front.len(), back),
{
    let whole = s.subrange(pos, pos + front.len() + back.len());
    assert(s.subrange(pos, pos + front.len()) =~= front) by {
        assert forall|i: int| 0 <= i < front.len() implies s.subrange(pos, pos + front.len())[i]
            == front[i] by {
            assert(whole[i] == (front + back)[i]);
        }
    }
    assert(s.subrange(pos + front.len(), pos + front.len() + back.len()) =~= back) by {
        assert forall|i: int| 0 <= i < back.len() implies s.subrange(
            pos + front.len(),
            pos + front.len() + back.len(),
        )[i] == back[i] by {
            assert(whole[i + front.len()] == (front + back)[i + front.len()]);
        }
    }
}

/// A value in double quotes is read as what stands between the quotes.
pub proof fn lemma_quoted_value(s: Seq<char>, pos: int, value: Seq<char>, bare: Option<CharClass>)
    requires
        has_at(s, pos, seq!['"'] + value + seq!['"']),
        value.len() > 0,
        all_in(value, CharClass::Not('"')),
    ensures
        value_at(s, pos, bare) == Some(
            ValueSpan { start: pos + 1, end: pos + 1 + value.len(), token_end: pos + 2 + value.len() },
        ),
        s.subrange(pos + 1, pos + 1 + value.len()) == value,
{
    let text = seq!['"'] + value + seq!['"'];
    let part = s.subrange(pos, pos + text.len());
    assert(part[0] == text[0]);
    assert(s[pos] == '"');
    assert forall|i: int| pos + 1 <= i < pos + 1 + value.len() implies CharClass::Not('"').has(
        #[trigger] s[i],
    ) by {
        assert(part[i - pos] == text[i - pos]);
        assert(text[i - pos] == value[i - pos - 1]);
    }
    assert(part[text.len() - 1] == text[text.len() - 1]);
    assert(s[pos + 1 + value.len()] == '"');
    lemma_run_end_is(s, pos + 1, CharClass::Not('"'), pos + 1 + value.len());
    assert(quoted_end(s, pos, '\'') is None);
    assert(quoted_end(s, pos, '"') == Some(pos + 2 + value.len()));
    assert(s.subrange(pos + 1, pos + 1 + value.len()) =~= value) by {
        assert forall|i: int| 0 <= i < value.len() implies s.subrange(
            pos + 1,
            pos + 1 + value.len(),
        )[i] == value[i] by {
            assert(part[i + 1] == text[i + 1]);
        }
    }
}

/// A value without quotes is read as the run of its characters, where the
/// run ends with the value.
pub proof fn lemma_bare_value(s: Seq<char>, pos: int, value: Seq<char>, class: CharClass)
    requires
        has_at(s, pos, value),
        value.len() > 0,
        all_in(value, class),
        !class.has('\''),
        !class.has('"'),
        !class.has(' '),
        pos + value.len() == s.len() || s[pos + value.len()] == ' ',
    ensures
        value_at(s, pos, Some(class)) == Some(
            ValueSpan { start: pos, end: pos + value.len(), token_end: pos + value.len() },
        ),
{
    let part = s.subrange(pos, pos + value.len());
    assert forall|i: int| pos <= i < pos + value.len() implies class.has(#[trigger] s[i]) by {
        assert(part[i - pos] == value[i - pos]);
    }
    assert(class.has(s[pos]));
    lemma_run_end_is(s, pos, class, pos + value.len());
    assert(quoted_end(s, pos, '\'') is None);
    assert(quoted_end(s, pos, '"') is None);
}

/// The text of a `language=` token with its value in double quotes.
pub open spec fn quoted_language_text(lang: Seq<char>) -> Seq<char> {
    language_key() + (seq!['"'] + lang + seq!['"'])
}

/// The text of a `language=` token with a bare value.
pub open spec fn bare_language_text(lang: Seq<char>) -> Seq<char> {
    language_key() + lang
}

/// The text of a `comment=` token.
pub open spec fn comment_text(syntax: InfoCommentSyntaxView) -> Seq<char> {
    comment_key() + (seq!['"'] + syntax.pattern() + seq!['"'])
}

/// The text of a `highlight=` token.
pub open spec fn highlight_text(lines: Seq<char>) -> Seq<char> {
    highlight_key() + lines
}

/// A language in double quotes writes the tag that it stands for.
pub proof fn lemma_writes_quoted_language(lang: Seq<char>)
    requires
        lang.len() > 0,
        all_in(lang, CharClass::Not('"')),
    ensures
        writes(quoted_language_text(lang), ConfigOptionView::Language(language_tag(lang))),
{
    reveal_strlit("keep_copyright_comment");
    reveal_strlit("noscopes");
    reveal_strlit("language=");
    let text = quoted_language_text(lang);
    let key = language_key();
    assert(text[0] == key[0]);
    assert forall|s: Seq<char>, pos: int|
        has_at(s, pos, text) && (pos + text.len() == s.len() || s[pos + text.len()] == ' ')
        implies (#[trigger] token_at(s, pos) matches Some((token, end)) && end == pos + text.len()
        && token.option() == Ok::<ConfigOptionView, ConfigErrorView>(
        ConfigOptionView::Language(language_tag(lang)),
    )) by {
        lemma_first_char(s, pos, text);
        if has_at(s, pos, keep_keyword()) {
            lemma_first_char(s, pos, keep_keyword());
        }
        if has_at(s, pos, noscopes_keyword()) {
            lemma_first_char(s, pos, noscopes_keyword());
        }
        lemma_has_at_concat(s, pos, key, seq!['"'] + lang + seq!['"']);
        lemma_quoted_value(s, pos + key.len(), lang, Some(CharClass::Alpha));
    }
}

/// A language that is a word of letters writes the tag that it stands for.
pub proof fn lemma_writes_bare_language(lang: Seq<char>)
    requires
        lang.len() > 0,
        all_in(lang, CharClass::Alpha),
    ensures
        writes(bare_language_text(lang), ConfigOptionView::Language(language_tag(lang))),
{
    reveal_strlit("keep_copyright_comment");
    reveal_strlit("noscopes");
    reveal_strlit("language=");
    let text = bare_language_text(lang);
    let key = language_key();
    assert(text[0] == key[0]);
    assert forall|s: Seq<char>, pos: int|
        has_at(s, pos, text) && (pos + text.len() == s.len() || s[pos + text.len()] == ' ')
        implies (#[trigger] token_at(s, pos) matches Some((token, end)) && end == pos + text.len()
        && token.option() == Ok::<ConfigOptionView, ConfigErrorView>(
        ConfigOptionView::Language(language_tag(lang)),
    )) by {
        lemma_first_char(s, pos, text);
        if has_at(s, pos, keep_keyword()) {
            lemma_first_char(s, pos, keep_keyword());
        }
        if has_at(s, pos, noscopes_keyword()) {
            lemma_first_char(s, pos, noscopes_keyword());
        }
        lemma_has_at_concat(s, pos, key, lang);
        lemma_bare_value(s, pos + key.len(), lang, CharClass::Alpha);
        assert(s.subrange(pos + key.len(), pos + key.len() + lang.len()) == lang);
    }
}

/// A comment syntax without braces and double quotes is written by its
/// pattern in double quotes.
pub proof fn lemma_writes_comment(syntax: InfoCommentSyntaxView)
    requires
        syntax.brace_free(),
        all_in(syntax.before, CharClass::Not('"')),
        all_in(syntax.after, CharClass::Not('"')),
    ensures
        writes(comment_text(syntax), ConfigOptionView::InfoComment(syntax)),
{
    reveal_strlit("keep_copyright_comment");
    reveal_strlit("noscopes");
    reveal_strlit("language=");
    reveal_strlit("comment=");
    let text = comment_text(syntax);
    let key = comment_key();
    let pattern = syntax.pattern();
    assert(text[0] == key[0]);
    syntax.lemma_accepts_pattern();
    assert forall|i: int| 0 <= i < pattern.len() implies CharClass::Not('"').has(
        #[trigger] pattern[i],
    ) by {
        if i < syntax.before.len() {
            assert(pattern[i] == syntax.before[i]);
        } else if i >= syntax.before.len() + 2 {
            assert(pattern[i] == syntax.after[i - syntax.before.len() - 2]);
        }
    }
    assert forall|s: Seq<char>, pos: int|
        has_at(s, pos, text) && (pos + text.len() == s.len() || s[pos + text.len()] == ' ')
        implies (#[trigger] token_at(s, pos) matches Some((token, end)) && end == pos + text.len()
        && token.option() == Ok::<ConfigOptionView, ConfigErrorView>(
        ConfigOptionView::InfoComment(syntax),
    )) by {
        lemma_first_char(s, pos, text);
        if has_at(s, pos, keep_keyword()) {
            lemma_first_char(s, pos, keep_keyword());
        }
        if has_at(s, pos, noscopes_keyword()) {
            lemma_first_char(s, pos, noscopes_keyword());
        }
        if has_at(s, pos, language_key()) {
            lemma_first_char(s, pos, language_key());
        }
        assert(keyed_value_at(s, pos, language_key(), Some(CharClass::Alpha)) is None);
        lemma_has_at_concat(s, pos, key, seq!['"'] + pattern + seq!['"']);
        lemma_quoted_value(s, pos + key.len(), pattern, None);
    }
}

/// Highlighted lines in digits, commas and dashes are written as they are.
pub proof fn lemma_writes_highlight(lines: Seq<char>)
    requires
        lines.len() > 0,
        all_in(lines, CharClass::Highlight),
    ensures
        writes(highlight_text(lines), ConfigOptionView::HighlightLines(lines)),
{
    reveal_strlit("keep_copyright_comment");
    reveal_strlit("noscopes");
    reveal_strlit("language=");
    reveal_strlit("comment=");
    reveal_strlit("highlight=");
    let text = highlight_text(lines);
    let key = highlight_key();
    assert(text[0] == key[0]);
    assert forall|s: Seq<char>, pos: int|
        has_at(s, pos, text) && (pos + text.len() == s.len() || s[pos + text.len()] == ' ')
        implies (#[trigger] token_at(s, pos) matches Some((token, end)) && end == pos + text.len()
        && token.option() == Ok::<ConfigOptionView, ConfigErrorView>(
        ConfigOptionView::HighlightLines(lines),
    )) by {
        lemma_first_char(s, pos, text);
        if has_at(s, pos, keep_keyword()) {
            lemma_first_char(s, pos, keep_keyword());
        }
        if has_at(s, pos, noscopes_keyword()) {
            lemma_first_char(s, pos, noscopes_keyword());
        }
        if has_at(s, pos, language_key()) {
            lemma_first_char(s, pos, language_key());
        }
        if has_at(s, pos, comment_key()) {
            lemma_first_char(s, pos, comment_key());
        }
        assert(keyed_value_at(s, pos, language_key(), Some(CharClass::Alpha)) is None);
        assert(keyed_value_at(s, pos, comment_key(), None) is None);
        lemma_has_at_concat(s, pos, key, lines);
        lemma_bare_value(s, pos + key.len(), lines, CharClass::Highlight);
        assert(s.subrange(pos + key.len(), pos + key.len() + lines.len()) == lines);
    }
}

impl ConfigView {
    /// The end of [`ConfigView::details`] from the token for the highlighted lines on.
    pub open spec fn rest_highlight(self) -> Seq<char> {
        self.highlight_details()
    }

    /// The end of [`ConfigView::details`] from the token for the comment syntax on.
    pub open spec fn rest_comment(self) -> Seq<char> {
        self.comment_details() + self.rest_highlight()
    }

    /// The end of [`ConfigView::details`] from the token for the language on.
    pub open spec fn rest_language(self) -> Seq<char> {
        self.language_details() + self.rest_comment()
    }

    /// The end of [`ConfigView::details`] from the token for the second flag on.
    pub open spec fn rest_noscopes(self) -> Seq<char> {
        (if self.no_scopes {
            " noscopes"@
        } else {
            Seq::empty()
        }) + self.rest_language()
    }

    /// The whole of [`ConfigView::details`], from the token for the first flag on.
    pub open spec fn rest_keep(self) -> Seq<char> {
        (if self.keep_copyright_comment {
            " keep_copyright_comment"@
        } else {
            Seq::empty()
        }) + self.rest_noscopes()
    }

    /// `config` after the token for the highlighted lines was read.
    pub open spec fn with_highlight(self, config: ConfigView) -> ConfigView {
        match self.highlight_lines {
            Some(lines) => ConfigOptionView::HighlightLines(lines).applied(config),
            None => config,
        }
    }

    /// `config` after the tokens from the one for the comment syntax on were read.
    pub open spec fn with_comment(self, config: ConfigView) -> ConfigView {
        self.with_highlight(
            if self.info_comment == InfoCommentSyntaxView::default_syntax() {
                config
            } else {
                ConfigOptionView::InfoComment(self.info_comment).applied(config)
            },
        )
    }

    /// `config` after the tokens from the one for the language on were read.
    pub open spec fn with_language(self, config: ConfigView) -> ConfigView {
        self.with_comment(
            if self.language == "python"@ {
                config
            } else {
                ConfigOptionView::Language(language_tag(self.language)).applied(config)
            },
        )
    }

    /// `config` after the tokens from the one for the second flag on were read.
    pub open spec fn with_noscopes(self, config: ConfigView) -> ConfigView {
        self.with_language(
            if self.no_scopes {
                ConfigOptionView::NoScopes.applied(config)
            } else {
                config
            },
        )
    }

    /// `config` after all the tokens were read.
    pub open spec fn with_keep(self, config: ConfigView) -> ConfigView {
        self.with_noscopes(
            if self.keep_copyright_comment {
                ConfigOptionView::KeepCopyrightComment.applied(config)
            } else {
                config
            },
        )
    }
}

/// The text that starts with a space and a key starts a token.
pub proof fn lemma_starts_with_key(text: Seq<char>, key: Seq<char>, rest: Seq<char>)
    requires
        text == seq![' '] + key + rest,
        key.len() > 0,
        !CharClass::Space.has(key[0]),
    ensures
        starts_token(text),
        text.len() > 0,
{
    assert(text[0] == ' ');
    assert(text[1] == key[0]);
}

/// Reading the token for the highlighted lines.
pub proof fn lemma_read_highlight(c: ConfigView, s: Seq<char>, pos: int, config: ConfigView)
    requires
        c.writable(),
        0 <= pos <= s.len(),
        s.subrange(pos, s.len() as int) == c.rest_highlight(),
        c.rest_highlight().len() > 0,
    ensures
        read_from(s, pos + 1, config) == Outcome::Done(c.with_highlight(config)),
        starts_token(c.rest_highlight()),
{
    reveal_strlit(" highlight=");
    reveal_strlit("highlight=");
    let lines = c.highlight_lines->0;
    let text = highlight_text(lines);
    lemma_writes_highlight(lines);
    assert(c.rest_highlight() =~= seq![' '] + text + Seq::<char>::empty());
    lemma_read_written(
        s,
        pos,
        text,
        ConfigOptionView::HighlightLines(lines),
        Seq::empty(),
        config,
    );
    lemma_rest_highlight_starts(c);
}

/// What follows the token for the comment syntax starts a token, if anything follows.
pub proof fn lemma_rest_highlight_starts(c: ConfigView)
    requires
        c.writable(),
    ensures
        starts_token(c.rest_highlight()),
{
    reveal_strlit(" highlight=");
    reveal_strlit("highlight=");
    if let Some(lines) = c.highlight_lines {
        assert(c.rest_highlight() =~= seq![' '] + highlight_key() + lines);
        lemma_starts_with_key(c.rest_highlight(), highlight_key(), lines);
    }
}

/// Reading the tokens from the one for the comment syntax on.
pub proof fn lemma_read_comment(c: ConfigView, s: Seq<char>, pos: int, config: ConfigView)
    requires
        c.writable(),
        0 <= pos <= s.len(),
        s.subrange(pos, s.len() as int) == c.rest_comment(),
        c.rest_comment().len() > 0,
    ensures
        read_from(s, pos + 1, config) == Outcome::Done(c.with_comment(config)),
{
    if c.info_comment == InfoCommentSyntaxView::default_syntax() {
        assert(c.rest_comment() =~= c.rest_highlight());
        lemma_read_highlight(c, s, pos, config);
    } else {
        reveal_strlit(" comment=\"");
        reveal_strlit("comment=");
        reveal_strlit("{}");
        reveal_strlit("\"");
        let text = comment_text(c.info_comment);
        let option = ConfigOptionView::InfoComment(c.info_comment);
        let rest = c.rest_highlight();
        lemma_writes_comment(c.info_comment);
        lemma_rest_highlight_starts(c);
        assert(c.rest_comment() =~= seq![' '] + text + rest);
        lemma_read_written(s, pos, text, option, rest, config);
        if rest.len() > 0 {
            lemma_read_highlight(c, s, pos + 1 + text.len(), option.applied(config));
        }
    }
}

/// What follows the token for the language starts a token, if anything follows.
pub proof fn lemma_rest_comment_starts(c: ConfigView)
    requires
        c.writable(),
    ensures
        starts_token(c.rest_comment()),
{
    lemma_rest_highlight_starts(c);
    if c.info_comment == InfoCommentSyntaxView::default_syntax() {
        assert(c.rest_comment() =~= c.rest_highlight());
    } else {
        reveal_strlit(" comment=\"");
        reveal_strlit("comment=");
        let rest = seq!['"'] + c.info_comment.before + "{}"@ + c.info_comment.after + "\""@
            + c.rest_highlight();
        assert(c.rest_comment() =~= seq![' '] + comment_key() + rest);
        lemma_starts_with_key(c.rest_comment(), comment_key(), rest);
    }
}

/// A language that holds a space is not empty.
pub proof fn lemma_space_inside(lang: Seq<char>)
    requires
        contains_seq(lang, " "@),
    ensures
        lang.len() > 0,
{
    reveal_strlit(" ");
    let i = choose|i: int| has_at(lang, i, " "@);
    assert(has_at(lang, i, " "@));
}

/// Reading the tokens from the one for the language on.
pub proof fn lemma_read_language(c: ConfigView, s: Seq<char>, pos: int, config: ConfigView)
    requires
        c.writable(),
        0 <= pos <= s.len(),
        s.subrange(pos, s.len() as int) == c.rest_language(),
        c.rest_language().len() > 0,
    ensures
        read_from(s, pos + 1, config) == Outcome::Done(c.with_language(config)),
{
    if c.language == "python"@ {
        assert(c.rest_language() =~= c.rest_comment());
        lemma_read_comment(c, s, pos, config);
    } else {
        reveal_strlit(" language=");
        reveal_strlit("language=");
        reveal_strlit("\"");
        let option = ConfigOptionView::Language(language_tag(c.language));
        let rest = c.rest_comment();
        lemma_rest_comment_starts(c);
        let text = if contains_seq(c.language, " "@) {
            quoted_language_text(c.language)
        } else {
            bare_language_text(c.language)
        };
        if contains_seq(c.language, " "@) {
            lemma_space_inside(c.language);
            lemma_writes_quoted_language(c.language);
        } else {
            lemma_writes_bare_language(c.language);
        }
        assert(c.rest_language() =~= seq![' '] + text + rest);
        lemma_read_written(s, pos, text, option, rest, config);
        if rest.len() > 0 {
            lemma_read_comment(c, s, pos + 1 + text.len(), option.applied(config));
        }
    }
}

/// What follows the token for the second flag starts a token, if anything follows.
pub proof fn lemma_rest_language_starts(c: ConfigView)
    requires
        c.writable(),
    ensures
        starts_token(c.rest_language()),
{
    lemma_rest_comment_starts(c);
    if c.language == "python"@ {
        assert(c.rest_language() =~= c.rest_comment());
    } else {
        reveal_strlit(" language=");
        reveal_strlit("language=");
        let value = if contains_seq(c.language, " "@) {
            "\""@ + c.language + "\""@
        } else {
            c.language
        };
        assert(c.rest_language() =~= seq![' '] + language_key() + (value + c.rest_comment()));
        lemma_starts_with_key(c.rest_language(), language_key(), value + c.rest_comment());
    }
}

/// Where no token is written from the one for the language on, the fields
/// from the language on have their defaults.
pub proof fn lemma_nothing_from_language(c: ConfigView, config: ConfigView)
    requires
        c.writable(),
        c.rest_language().len() == 0,
    ensures
        c.with_language(config) == config,
{
    reveal_strlit(" language=");
    reveal_strlit(" comment=\"");
    reveal_strlit(" highlight=");
}

/// Reading the tokens from the one for the second flag on.
pub proof fn lemma_read_noscopes(c: ConfigView, s: Seq<char>, pos: int, config: ConfigView)
    requires
        c.writable(),
        0 <= pos <= s.len(),
        s.subrange(pos, s.len() as int) == c.rest_noscopes(),
        c.rest_noscopes().len() > 0,
    ensures
        read_from(s, pos + 1, config) == Outcome::Done(c.with_noscopes(config)),
{
    if !c.no_scopes {
        assert(c.rest_noscopes() =~= c.rest_language());
        lemma_read_language(c, s, pos, config);
    } else {
        reveal_strlit(" noscopes");
        reveal_strlit("noscopes");
        let text = noscopes_keyword();
        let option = ConfigOptionView::NoScopes;
        let rest = c.rest_language();
        lemma_writes_noscopes();
        lemma_rest_language_starts(c);
        assert(c.rest_noscopes() =~= seq![' '] + text + rest);
        lemma_read_written(s, pos, text, option, rest, config);
        if rest.len() > 0 {
            lemma_read_language(c, s, pos + 1 + text.len(), option.applied(config));
        } else {
            lemma_nothing_from_language(c, option.applied(config));
        }
    }
}

/// What follows the token for the first flag starts a token, if anything follows.
pub proof fn lemma_rest_noscopes_starts(c: ConfigView)
    requires
        c.writable(),
    ensures
        starts_token(c.rest_noscopes()),
{
    lemma_rest_language_starts(c);
    if !c.no_scopes {
        assert(c.rest_noscopes() =~= c.rest_language());
    } else {
        reveal_strlit(" noscopes");
        reveal_strlit("noscopes");
        assert(c.rest_noscopes() =~= seq![' '] + noscopes_keyword() + c.rest_language());
        lemma_starts_with_key(c.rest_noscopes(), noscopes_keyword(), c.rest_language());
    }
}

/// Where no token is written from the one for the second flag on, the
/// fields from that flag on have their defaults.
pub proof fn lemma_nothing_written(c: ConfigView, config: ConfigView)
    requires
        c.writable(),
        c.rest_noscopes().len() == 0,
    ensures
        c.with_noscopes(config) == config,
{
    reveal_strlit(" noscopes");
    lemma_nothing_from_language(c, config);
}

/// Reading all the tokens.
pub proof fn lemma_read_keep(c: ConfigView, s: Seq<char>, pos: int, config: ConfigView)
    requires
        c.writable(),
        0 <= pos <= s.len(),
        s.subrange(pos, s.len() as int) == c.rest_keep(),
        c.rest_keep().len() > 0,
    ensures
        read_from(s, pos + 1, config) == Outcome::Done(c.with_keep(config)),
        starts_token(c.rest_keep()),
{
    lemma_rest_noscopes_starts(c);
    if !c.keep_copyright_comment {
        assert(c.rest_keep() =~= c.rest_noscopes());
        lemma_read_noscopes(c, s, pos, config);
    } else {
        reveal_strlit(" keep_copyright_comment");
        reveal_strlit("keep_copyright_comment");
        let text = keep_keyword();
        let option = ConfigOptionView::KeepCopyrightComment;
        let rest = c.rest_noscopes();
        lemma_writes_keep();
        assert(c.rest_keep() =~= seq![' '] + text + rest);
        lemma_read_written(s, pos, text, option, rest, config);
        if rest.len() > 0 {
            lemma_read_noscopes(c, s, pos + 1 + text.len(), option.applied(config));
        } else {
            lemma_nothing_written(c, option.applied(config));
        }
        lemma_starts_with_key(c.rest_keep(), keep_keyword(), c.rest_noscopes());
    }
}

/// The default language is its own tag.
pub proof fn lemma_python_tag()
    ensures
        language_tag("python"@) == "python"@,
{
    reveal_strlit("python");
    assert(ascii("python"@));
    assert(ascii_lowercase("python"@) =~= "python"@);
}

/// Reading the details of a configuration gives the configuration back,
/// with the case of its language folded once more. The law holds of every
/// configuration whose fields can be written as tokens.
pub proof fn law_details_read_back(c: ConfigView)
    requires
        c.writable(),
    ensures
        outcome(c.details()) == Outcome::Done(c.refolded()),
        parsed(c.details()) == c.refolded(),
{
    let d = c.details();
    assert(d =~= c.rest_keep());
    lemma_python_tag();
    if d.len() == 0 {
        reveal_strlit(" keep_copyright_comment");
        lemma_nothing_written(c, ConfigView::default_config());
        assert(with_space(d).len() == 1);
        assert(c.with_keep(ConfigView::default_config()) == c.refolded());
    } else {
        assert(d.subrange(0, d.len() as int) =~= d);
        lemma_read_keep(c, d, 0, ConfigView::default_config());
        assert(d[0] == ' ');
        assert(with_space(d) == d);
        assert(c.with_keep(ConfigView::default_config()) == c.refolded());
    }
}

/// `lang` is a language tag as the reading of a token leaves it: folding
/// its case once more changes nothing.
pub open spec fn is_folded(lang: Seq<char>) -> bool {
    language_tag(lang) == lang
}

/// The tag of an ASCII language is folded.
pub proof fn lemma_tag_is_folded(lang: Seq<char>)
    requires
        ascii(lang),
    ensures
        is_folded(language_tag(lang)),
{
    if !contains_seq(lang, lexer_marker()) {
        lemma_ascii_lowercase_idempotent(lang);
    }
}

/// The language of the markdown macro is folded.
pub proof fn lemma_macro_language_is_folded(m: ConfigMacro)
    ensures
        is_folded(m.language()),
{
    reveal_strlit("lexers.py:MarkdownWithCommentsLexer -x");
    reveal_strlit(".py:");
    let lang = m.language();
    assert(lang.subrange(6, 10) =~= lexer_marker());
    assert(has_at(lang, 6, lexer_marker()));
}

/// The language that the reading of an ASCII string ends with is folded.
pub proof fn lemma_read_is_folded(s: Seq<char>, pos: int, config: ConfigView)
    requires
        ascii(s),
        0 <= pos <= s.len(),
        is_folded(config.language),
        read_from(s, pos, config) is Done,
    ensures
        is_folded(read_from(s, pos, config)->Done_0.language),
    decreases s.len() - pos,
{
    let (token, end) = token_at(s, pos)->0;
    let option = token.option()->Ok_0;
    let next = run_end(s, end, CharClass::Space);
    lemma_token_end(s, pos);
    lemma_run_end(s, end, CharClass::Space);
    assert(is_folded(option.applied(config).language)) by {
        match token {
            Token::Language(lang) => {
                lemma_value_span(s, pos + language_key().len(), Some(CharClass::Alpha));
                let v = keyed_value_at(s, pos, language_key(), Some(CharClass::Alpha))->0;
                assert(lang == s.subrange(v.start, v.end));
                assert(ascii(lang)) by {
                    assert forall|i: int| 0 <= i < lang.len() implies (#[trigger] lang[i]) as u32
                        <= 0x7f by {
                        assert(lang[i] == s[v.start + i]);
                    }
                }
                lemma_tag_is_folded(lang);
            },
            Token::Macro(name) => {
                lemma_macro_language_is_folded(ConfigMacro::named(name)->0);
            },
            _ => {},
        }
    }
    if next < s.len() {
        lemma_read_is_folded(s, next, option.applied(config));
    }
}

/// The language of the configuration that an ASCII option string stands
/// for is folded.
pub proof fn lemma_parsed_is_folded(s: Seq<char>)
    requires
        ascii(s),
    ensures
        is_folded(parsed(s).language),
{
    let t = with_space(s);
    lemma_python_tag();
    assert(ascii(t)) by {
        assert forall|i: int| 0 <= i < t.len() implies (#[trigger] t[i]) as u32 <= 0x7f by {
            if t != s && i > 0 {
                assert(t[i] == s[i - 1]);
            }
        }
    }
    if t.len() > 1 && outcome(s) is Done {
        lemma_read_is_folded(t, 1, ConfigView::default_config());
    }
}

/// Reading is idempotent under the round trip through the details: the
/// configuration that an option string stands for is read back from its
/// own details, if its fields can be written as tokens and its language is
/// folded. The language is folded wherever the option string is ASCII.
pub proof fn law_round_trip(s: Seq<char>)
    requires
        parsed(s).writable(),
        is_folded(parsed(s).language),
    ensures
        parsed(parsed(s).details()) == parsed(s),
{
    law_details_read_back(parsed(s));
}

} // verus!
