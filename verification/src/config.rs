//! The options of a snippet comment and the grammar that they are written in.
//!
//! An option string is a space and a sequence of tokens separated by white
//! space. [`Config::parse`] puts the space before a string that does not
//! start with one. A token is a keyword, a `key=value` pair or a
//! macro call such as `markdown!`. Tokens are applied from left to right, so
//! that the last one to set a field decides it. One token that the grammar
//! does not know voids the whole string, which then stands for the default
//! configuration.

use crate::chars::{
    chars_of, contains, contains_seq, has_at, lemma_run_end, lowercase, run_end, scan,
    slice_of, starts_at, to_lowercase, CharClass,
};
use crate::info_comment::{InfoCommentSyntax, InfoCommentSyntaxView};
use vstd::pervasive::unreached;
use vstd::prelude::*;
use vstd::string::*;

verus! {

/// The options of one snippet.
#[derive(Clone, Debug, PartialEq)]
pub struct Config {
    /// The language of the snippet. Defaults to Python.
    pub language: String,
    /// The syntax of the informational comments. Defaults to a leading `# `.
    pub info_comment: InfoCommentSyntax,
    /// Whether a copyright comment at the head of a whole file is kept.
    pub keep_copyright_comment: bool,
    /// Whether the enclosing scopes of the snippet are left out.
    pub no_scopes: bool,
    /// The lines to highlight, handed on as they are written.
    pub highlight_lines: Option<String>,
}

/// The mathematical value of a [`Config`].
pub struct ConfigView {
    pub language: Seq<char>,
    pub info_comment: InfoCommentSyntaxView,
    pub keep_copyright_comment: bool,
    pub no_scopes: bool,
    pub highlight_lines: Option<Seq<char>>,
}

impl View for Config {
    type V = ConfigView;

    open spec fn view(&self) -> ConfigView {
        ConfigView {
            language: self.language@,
            info_comment: self.info_comment@,
            keep_copyright_comment: self.keep_copyright_comment,
            no_scopes: self.no_scopes,
            highlight_lines: match self.highlight_lines {
                Some(lines) => Some(lines@),
                None => None,
            },
        }
    }
}

impl ConfigView {
    /// The configuration of a snippet without options.
    pub open spec fn default_config() -> ConfigView {
        ConfigView {
            language: "python"@,
            info_comment: InfoCommentSyntaxView::default_syntax(),
            keep_copyright_comment: false,
            no_scopes: false,
            highlight_lines: None,
        }
    }
}

impl ConfigView {
    /// The option string that gives this configuration: one token, with a
    /// space before it, for each field that differs from its default. The
    /// string is empty or starts with a space.
    pub open spec fn details(self) -> Seq<char> {
        self.flag_details() + self.language_details() + self.comment_details()
            + self.highlight_details()
    }

    /// The tokens of [`ConfigView::details`] for the two flags.
    pub open spec fn flag_details(self) -> Seq<char> {
        (if self.keep_copyright_comment {
            " keep_copyright_comment"@
        } else {
            Seq::empty()
        }) + (if self.no_scopes {
            " noscopes"@
        } else {
            Seq::empty()
        })
    }

    /// The token of [`ConfigView::details`] for the language: in double
    /// quotes where the language holds a space.
    pub open spec fn language_details(self) -> Seq<char> {
        if self.language == "python"@ {
            Seq::empty()
        } else if contains_seq(self.language, " "@) {
            " language="@ + "\""@ + self.language + "\""@
        } else {
            " language="@ + self.language
        }
    }

    /// The token of [`ConfigView::details`] for the comment syntax.
    pub open spec fn comment_details(self) -> Seq<char> {
        if self.info_comment == InfoCommentSyntaxView::default_syntax() {
            Seq::empty()
        } else {
            " comment=\""@ + self.info_comment.before + "{}"@ + self.info_comment.after + "\""@
        }
    }

    /// The token of [`ConfigView::details`] for the highlighted lines.
    pub open spec fn highlight_details(self) -> Seq<char> {
        match self.highlight_lines {
            Some(lines) => " highlight="@ + lines,
            None => Seq::empty(),
        }
    }
}

impl Default for Config {
    /// The configuration of a snippet without options.
    fn default() -> (r: Self)
        ensures
            r@ == ConfigView::default_config(),
    {
        Config {
            language: "python".to_owned(),
            info_comment: InfoCommentSyntax::default(),
            keep_copyright_comment: false,
            no_scopes: false,
            highlight_lines: None,
        }
    }
}

/// A macro of the option grammar: a name for a bundle of field settings.
///
/// In an option string the name is followed by an exclamation mark, as in
/// `markdown!`.
#[derive(Clone, Copy, Debug, PartialEq, Eq)]
pub enum ConfigMacro {
    /// Markdown text, with HTML comments for the informational lines.
    Markdown,
}

/// A macro name that is not known.
#[derive(Clone, Debug, PartialEq, Eq)]
pub struct MacroNameError {
    /// The name as it was given.
    pub name: String,
}

impl View for MacroNameError {
    type V = Seq<char>;

    open spec fn view(&self) -> Seq<char> {
        self.name@
    }
}

impl MacroNameError {
    /// The text of the error message for the name `name`.
    pub open spec fn message_of(name: Seq<char>) -> Seq<char> {
        "Unrecognised macro name '"@ + name + "!'"@
    }

    /// The error message.
    pub fn message(&self) -> (r: String)
        ensures
            r@ == Self::message_of(self@),
    {
        let mut s = "Unrecognised macro name '".to_owned();
        s.append(self.name.as_str());
        s.append("!'");
        s
    }
}

impl ConfigMacro {
    /// `name` without its exclamation mark, if it ends in one.
    pub open spec fn bare_name(name: Seq<char>) -> Seq<char> {
        if name.len() > 0 && name.last() == '!' {
            name.drop_last()
        } else {
            name
        }
    }

    /// The macro that `name` calls, with or without its exclamation mark.
    pub open spec fn named(name: Seq<char>) -> Option<ConfigMacro> {
        if Self::bare_name(name) == "markdown"@ {
            Some(ConfigMacro::Markdown)
        } else {
            None
        }
    }

    /// The language that the macro sets.
    pub open spec fn language(self) -> Seq<char> {
        "lexers.py:MarkdownWithCommentsLexer -x"@
    }

    /// The comment syntax that the macro sets.
    pub open spec fn info_comment(self) -> InfoCommentSyntaxView {
        InfoCommentSyntaxView { before: "<!-- "@, after: " -->"@ }
    }

    /// The configuration `config` after the macro was applied to it.
    pub open spec fn applied(self, config: ConfigView) -> ConfigView {
        ConfigView { language: self.language(), info_comment: self.info_comment(), ..config }
    }

    /// Reads a macro name, with or without its exclamation mark.
    pub fn parse(s: &str) -> (r: Result<ConfigMacro, MacroNameError>)
        ensures
            match r {
                Ok(m) => Self::named(s@) == Some(m),
                Err(e) => Self::named(s@) is None && e@ == s@,
            },
    {
        let cs = chars_of(s);
        let n = cs.len();
        let stop = if n > 0 && cs[n - 1] == '!' {
            n - 1
        } else {
            n
        };
        let name = slice_of(s, 0, stop);
        proof {
            assert(s@.subrange(0, stop as int) =~= Self::bare_name(s@));
        }
        if name == "markdown".to_owned() {
            Ok(ConfigMacro::Markdown)
        } else {
            Err(MacroNameError { name: s.to_owned() })
        }
    }

    /// Applies the macro to `config`: sets every field of its bundle and
    /// leaves the others as they are.
    pub fn mutate_config(&self, config: &mut Config)
        ensures
            final(config)@ == self.applied(old(config)@),
    {
        match self {
            ConfigMacro::Markdown => {
                proof {
                    lemma_markdown_pattern();
                }
                config.language = "lexers.py:MarkdownWithCommentsLexer -x".to_owned();
                config.info_comment = InfoCommentSyntax::parse("<!-- {} -->");
            },
        }
    }
}

/// The comment pattern of the markdown macro is accepted and denotes the
/// syntax that the macro sets.
pub proof fn lemma_markdown_pattern()
    ensures
        InfoCommentSyntaxView::accepts("<!-- {} -->"@),
        InfoCommentSyntaxView::of_pattern("<!-- {} -->"@) == ConfigMacro::Markdown.info_comment(),
{
    reveal_strlit("<!-- {} -->");
    reveal_strlit("<!-- ");
    reveal_strlit(" -->");
    let syntax = ConfigMacro::Markdown.info_comment();
    assert(syntax.pattern() =~= "<!-- {} -->"@);
    syntax.lemma_accepts_pattern();
}

/// One option, as a token of an option string gives it.
#[derive(Clone, Debug, PartialEq, Eq)]
pub enum ConfigOption {
    KeepCopyrightComment,
    NoScopes,
    Language(String),
    InfoComment(InfoCommentSyntax),
    HighlightLines(String),
    Macro(ConfigMacro),
}

/// The mathematical value of a [`ConfigOption`].
pub enum ConfigOptionView {
    KeepCopyrightComment,
    NoScopes,
    Language(Seq<char>),
    InfoComment(InfoCommentSyntaxView),
    HighlightLines(Seq<char>),
    Macro(ConfigMacro),
}

impl View for ConfigOption {
    type V = ConfigOptionView;

    open spec fn view(&self) -> ConfigOptionView {
        match self {
            ConfigOption::KeepCopyrightComment => ConfigOptionView::KeepCopyrightComment,
            ConfigOption::NoScopes => ConfigOptionView::NoScopes,
            ConfigOption::Language(lang) => ConfigOptionView::Language(lang@),
            ConfigOption::InfoComment(syntax) => ConfigOptionView::InfoComment(syntax@),
            ConfigOption::HighlightLines(lines) => ConfigOptionView::HighlightLines(lines@),
            ConfigOption::Macro(m) => ConfigOptionView::Macro(*m),
        }
    }
}

/// The marker of a reference to a custom lexer, whose case is kept.
pub open spec fn lexer_marker() -> Seq<char> {
    ".py:"@
}

/// The language tag that the value `lang` of a `language=` token stands
/// for: `lang` itself where it refers to a custom lexer, else its
/// lower-case form.
pub open spec fn language_tag(lang: Seq<char>) -> Seq<char> {
    if contains_seq(lang, lexer_marker()) {
        lang
    } else {
        lowercase(lang)
    }
}

impl ConfigOptionView {
    /// The configuration `config` after this option was applied to it.
    pub open spec fn applied(self, config: ConfigView) -> ConfigView {
        match self {
            ConfigOptionView::KeepCopyrightComment => ConfigView {
                keep_copyright_comment: true,
                ..config
            },
            ConfigOptionView::NoScopes => ConfigView { no_scopes: true, ..config },
            ConfigOptionView::Language(lang) => ConfigView { language: lang, ..config },
            ConfigOptionView::InfoComment(syntax) => ConfigView { info_comment: syntax, ..config },
            ConfigOptionView::HighlightLines(lines) => ConfigView {
                highlight_lines: Some(lines),
                ..config
            },
            ConfigOptionView::Macro(m) => m.applied(config),
        }
    }
}

impl ConfigOption {
    /// The option that sets the language to the tag that `lang` stands for.
    pub fn language(lang: &str) -> (r: Self)
        ensures
            r@ == ConfigOptionView::Language(language_tag(lang@)),
    {
        let cs = chars_of(lang);
        ConfigOption::Language(
            if contains(&cs, ".py:") {
                lang.to_owned()
            } else {
                to_lowercase(lang)
            },
        )
    }

    /// The option that sets the comment syntax to the one that the pattern
    /// `syntax` denotes.
    pub fn info_comment(syntax: &str) -> (r: Self)
        requires
            InfoCommentSyntaxView::accepts(syntax@),
        ensures
            r@ == ConfigOptionView::InfoComment(InfoCommentSyntaxView::of_pattern(syntax@)),
    {
        ConfigOption::InfoComment(InfoCommentSyntax::parse(syntax))
    }

    /// Applies the option to `config`.
    pub fn apply(self, config: &mut Config)
        ensures
            final(config)@ == self@.applied(old(config)@),
    {
        match self {
            ConfigOption::KeepCopyrightComment => config.keep_copyright_comment = true,
            ConfigOption::NoScopes => config.no_scopes = true,
            ConfigOption::Language(lang) => config.language = lang,
            ConfigOption::InfoComment(syntax) => config.info_comment = syntax,
            ConfigOption::HighlightLines(lines) => config.highlight_lines = Some(lines),
            ConfigOption::Macro(m) => m.mutate_config(config),
        }
    }
}

/// Why an option string could not be read at all.
#[derive(Clone, Debug, PartialEq, Eq)]
pub enum ConfigError {
    /// A macro was called that is not known.
    MacroName(MacroNameError),
    /// The value of a `comment=` token is not a syntax pattern.
    CommentSyntax(String),
}

/// The mathematical value of a [`ConfigError`].
pub enum ConfigErrorView {
    MacroName(Seq<char>),
    CommentSyntax(Seq<char>),
}

impl View for ConfigError {
    type V = ConfigErrorView;

    open spec fn view(&self) -> ConfigErrorView {
        match self {
            ConfigError::MacroName(e) => ConfigErrorView::MacroName(e@),
            ConfigError::CommentSyntax(pattern) => ConfigErrorView::CommentSyntax(pattern@),
        }
    }
}

/// A token of an option string, as it is written.
pub enum Token {
    KeepCopyrightComment,
    NoScopes,
    /// `language=` and its value.
    Language(Seq<char>),
    /// `comment=` and its value.
    Comment(Seq<char>),
    /// `highlight=` and its value.
    Highlight(Seq<char>),
    /// A macro call, with the name that stands before the exclamation mark.
    Macro(Seq<char>),
}

impl Token {
    /// What the token means: the option that it sets, or the reason why it
    /// cannot be read.
    pub open spec fn option(self) -> Result<ConfigOptionView, ConfigErrorView> {
        match self {
            Token::KeepCopyrightComment => Ok(ConfigOptionView::KeepCopyrightComment),
            Token::NoScopes => Ok(ConfigOptionView::NoScopes),
            Token::Language(lang) => Ok(ConfigOptionView::Language(language_tag(lang))),
            Token::Comment(pattern) => if InfoCommentSyntaxView::accepts(pattern) {
                Ok(ConfigOptionView::InfoComment(InfoCommentSyntaxView::of_pattern(pattern)))
            } else {
                Err(ConfigErrorView::CommentSyntax(pattern))
            },
            Token::Highlight(lines) => Ok(ConfigOptionView::HighlightLines(lines)),
            Token::Macro(name) => match ConfigMacro::named(name) {
                Some(m) => Ok(ConfigOptionView::Macro(m)),
                None => Err(ConfigErrorView::MacroName(name)),
            },
        }
    }
}

/// The keyword that keeps the copyright notice.
pub open spec fn keep_keyword() -> Seq<char> {
    "keep_copyright_comment"@
}

/// The keyword that leaves the scope lines out.
pub open spec fn noscopes_keyword() -> Seq<char> {
    "noscopes"@
}

/// The key of the token that sets the language.
pub open spec fn language_key() -> Seq<char> {
    "language="@
}

/// The key of the token that sets the comment syntax.
pub open spec fn comment_key() -> Seq<char> {
    "comment="@
}

/// The key of the token that sets the highlighted lines.
pub open spec fn highlight_key() -> Seq<char> {
    "highlight="@
}

/// The end of the quoted string that starts at `pos` with the quote `q`:
/// the position after its closing quote. Between the quotes stands at least
/// one character, and none of them is `q`.
pub open spec fn quoted_end(s: Seq<char>, pos: int, q: char) -> Option<int> {
    let stop = run_end(s, pos + 1, CharClass::Not(q));
    if 0 <= pos < s.len() && s[pos] == q && pos + 1 < stop < s.len() {
        Some(stop + 1)
    } else {
        None
    }
}

/// A value found in an option string: where its text starts and ends, and
/// where the token ends that it belongs to.
pub struct ValueSpan {
    pub start: int,
    pub end: int,
    pub token_end: int,
}

/// The value that starts at `pos`: a string in single quotes, else a string
/// in double quotes, else a run of characters of the class `bare`, if one
/// is given.
pub open spec fn value_at(s: Seq<char>, pos: int, bare: Option<CharClass>) -> Option<ValueSpan> {
    if let Some(end) = quoted_end(s, pos, '\'') {
        Some(ValueSpan { start: pos + 1, end: end - 1, token_end: end })
    } else if let Some(end) = quoted_end(s, pos, '"') {
        Some(ValueSpan { start: pos + 1, end: end - 1, token_end: end })
    } else if bare is Some && 0 <= pos && run_end(s, pos, bare->0) > pos {
        let end = run_end(s, pos, bare->0);
        Some(ValueSpan { start: pos, end: end, token_end: end })
    } else {
        None
    }
}

/// The value of the `key=value` token that starts at `pos`, if `key` and a
/// value stand there.
pub open spec fn keyed_value_at(
    s: Seq<char>,
    pos: int,
    key: Seq<char>,
    bare: Option<CharClass>,
) -> Option<ValueSpan> {
    if has_at(s, pos, key) {
        value_at(s, pos + key.len(), bare)
    } else {
        None
    }
}

/// The macro call that starts at `pos`: a name without white space or
/// exclamation mark, and the exclamation mark after it.
pub open spec fn macro_call_at(s: Seq<char>, pos: int) -> Option<ValueSpan> {
    let end = run_end(s, pos, CharClass::Name('!'));
    if 0 <= pos < end < s.len() && s[end] == '!' {
        Some(ValueSpan { start: pos, end: end, token_end: end + 1 })
    } else {
        None
    }
}

/// The token that starts at `pos` and the position after it. The forms are
/// tried in the order in which they stand here, and the first one that
/// fits decides.
pub open spec fn token_at(s: Seq<char>, pos: int) -> Option<(Token, int)> {
    if has_at(s, pos, keep_keyword()) {
        Some((Token::KeepCopyrightComment, pos + keep_keyword().len()))
    } else if has_at(s, pos, noscopes_keyword()) {
        Some((Token::NoScopes, pos + noscopes_keyword().len()))
    } else if let Some(v) = keyed_value_at(s, pos, language_key(), Some(CharClass::Alpha)) {
        Some((Token::Language(s.subrange(v.start, v.end)), v.token_end))
    } else if let Some(v) = keyed_value_at(s, pos, comment_key(), None) {
        Some((Token::Comment(s.subrange(v.start, v.end)), v.token_end))
    } else if let Some(v) = keyed_value_at(s, pos, highlight_key(), Some(CharClass::Highlight)) {
        Some((Token::Highlight(s.subrange(v.start, v.end)), v.token_end))
    } else if let Some(v) = macro_call_at(s, pos) {
        Some((Token::Macro(s.subrange(v.start, v.end)), v.token_end))
    } else {
        None
    }
}

/// How the reading of an option string ends.
pub enum Outcome {
    /// Every token was known: the configuration that they give.
    Done(ConfigView),
    /// The string is no option string: it does not start with a space, or
    /// a token was met that the grammar does not know.
    Unrecognized,
    /// A token was met that cannot be read at all.
    Failed(ConfigErrorView),
}

/// Reads the tokens of `s` from `pos` on, where a token must start, and
/// applies them to `config`. After a token comes white space and the next
/// token, or the end of the string, with or without white space before it.
pub open spec fn read_from(s: Seq<char>, pos: int, config: ConfigView) -> Outcome
    decreases s.len() - pos,
{
    match token_at(s, pos) {
        None => Outcome::Unrecognized,
        Some((token, end)) => match token.option() {
            Err(e) => Outcome::Failed(e),
            Ok(option) => {
                let next = run_end(s, end, CharClass::Space);
                if next >= s.len() {
                    Outcome::Done(option.applied(config))
                } else if next == end || next <= pos {
                    Outcome::Unrecognized
                } else {
                    read_from(s, next, option.applied(config))
                }
            },
        },
    }
}

/// How the reading of the option string `s` ends. The string starts with
/// a space: one that does not is not read at all. After the space come the
/// tokens, or nothing.
pub open spec fn read_options(s: Seq<char>) -> Outcome {
    if s.len() == 0 || s[0] != ' ' {
        Outcome::Unrecognized
    } else if s.len() == 1 {
        Outcome::Done(ConfigView::default_config())
    } else {
        read_from(s, 1, ConfigView::default_config())
    }
}

/// `s` as an option string: itself where it starts with a space, else with
/// a space put before it.
pub open spec fn with_space(s: Seq<char>) -> Seq<char> {
    if s.len() > 0 && s[0] == ' ' {
        s
    } else {
        seq![' '] + s
    }
}

/// How the reading of `s` ends, with a space put before it where it does
/// not start with one.
pub open spec fn outcome(s: Seq<char>) -> Outcome {
    read_options(with_space(s))
}

/// The configuration that the option string `s` stands for, where it can be read.
pub open spec fn parsed(s: Seq<char>) -> ConfigView {
    match outcome(s) {
        Outcome::Done(config) => config,
        _ => ConfigView::default_config(),
    }
}

/// A token is never empty.
pub proof fn lemma_token_end(s: Seq<char>, pos: int)
    requires
        0 <= pos <= s.len(),
    ensures
        token_at(s, pos) matches Some((_, end)) ==> pos < end <= s.len(),
{
    reveal_strlit("keep_copyright_comment");
    reveal_strlit("noscopes");
    reveal_strlit("language=");
    reveal_strlit("comment=");
    reveal_strlit("highlight=");
    lemma_run_end(s, pos, CharClass::Name('!'));
    if has_at(s, pos, language_key()) {
        lemma_value_span(s, pos + language_key().len(), Some(CharClass::Alpha));
    }
    if has_at(s, pos, comment_key()) {
        lemma_value_span(s, pos + comment_key().len(), None);
    }
    if has_at(s, pos, highlight_key()) {
        lemma_value_span(s, pos + highlight_key().len(), Some(CharClass::Highlight));
    }
}

/// A value lies inside the string, and its token ends after it starts.
pub proof fn lemma_value_span(s: Seq<char>, pos: int, bare: Option<CharClass>)
    requires
        0 <= pos <= s.len(),
    ensures
        value_at(s, pos, bare) matches Some(v) ==> pos <= v.start < v.end <= v.token_end
            <= s.len(),
{
    lemma_run_end(s, pos, CharClass::Not('\''));
    lemma_run_end(s, pos, CharClass::Not('"'));
    if pos < s.len() {
        lemma_run_end(s, pos + 1, CharClass::Not('\''));
        lemma_run_end(s, pos + 1, CharClass::Not('"'));
    }
    if bare is Some {
        lemma_run_end(s, pos, bare->0);
    }
}

/// Finds the end of the quoted string that starts at `pos` with the quote `q`.
fn find_quoted(s: &Vec<char>, pos: usize, q: char) -> (r: Option<usize>)
    requires
        pos <= s.len(),
    ensures
        match r {
            Some(end) => quoted_end(s@, pos as int, q) == Some(end as int),
            None => quoted_end(s@, pos as int, q) is None,
        },
{
    if pos >= s.len() || s[pos] != q {
        return None;
    }
    let stop = scan(s, pos + 1, CharClass::Not(q));
    if pos + 1 < stop && stop < s.len() {
        Some(stop + 1)
    } else {
        None
    }
}

/// A value found by the scanner: the positions of a [`ValueSpan`].
struct Place {
    start: usize,
    end: usize,
    token_end: usize,
}

impl Place {
    spec fn view(self) -> ValueSpan {
        ValueSpan {
            start: self.start as int,
            end: self.end as int,
            token_end: self.token_end as int,
        }
    }
}

/// Finds the value that starts at `pos`.
fn find_value(s: &Vec<char>, pos: usize, bare: Option<CharClass>) -> (r: Option<Place>)
    requires
        pos <= s.len(),
    ensures
        match r {
            Some(v) => value_at(s@, pos as int, bare) == Some(v.view()) && pos <= v.start
                < v.end <= v.token_end <= s.len(),
            None => value_at(s@, pos as int, bare) is None,
        },
{
    proof {
        lemma_value_span(s@, pos as int, bare);
    }
    if let Some(end) = find_quoted(s, pos, '\'') {
        return Some(Place { start: pos + 1, end: end - 1, token_end: end });
    }
    if let Some(end) = find_quoted(s, pos, '"') {
        return Some(Place { start: pos + 1, end: end - 1, token_end: end });
    }
    match bare {
        Some(class) => {
            let end = scan(s, pos, class);
            if end > pos {
                Some(Place { start: pos, end, token_end: end })
            } else {
                None
            }
        },
        None => None,
    }
}

/// Finds the value of the `key=value` token that starts at `pos`.
fn find_keyed_value(s: &Vec<char>, pos: usize, key: &str, bare: Option<CharClass>) -> (r: Option<
    Place,
>)
    requires
        pos <= s.len(),
    ensures
        match r {
            Some(v) => keyed_value_at(s@, pos as int, key@, bare) == Some(v.view()) && pos
                <= v.start < v.end <= v.token_end <= s.len(),
            None => keyed_value_at(s@, pos as int, key@, bare) is None,
        },
{
    if starts_at(s, pos, key) {
        let n = chars_of(key).len();
        find_value(s, pos + n, bare)
    } else {
        None
    }
}

/// Finds the macro call that starts at `pos`.
fn find_macro_call(s: &Vec<char>, pos: usize) -> (r: Option<Place>)
    requires
        pos <= s.len(),
    ensures
        match r {
            Some(v) => macro_call_at(s@, pos as int) == Some(v.view()) && pos <= v.start < v.end
                <= v.token_end <= s.len(),
            None => macro_call_at(s@, pos as int) is None,
        },
{
    let end = scan(s, pos, CharClass::Name('!'));
    if pos < end && end < s.len() && s[end] == '!' {
        Some(Place { start: pos, end, token_end: end + 1 })
    } else {
        None
    }
}

/// What a token means, as the scanner returns it: the view of the option or
/// of the error.
pub open spec fn meaning(r: Result<ConfigOption, ConfigError>) -> Result<
    ConfigOptionView,
    ConfigErrorView,
> {
    match r {
        Ok(option) => Ok(option@),
        Err(e) => Err(e@),
    }
}

/// Reads the token that starts at `pos`: what it means, and where it ends.
fn read_token(input: &str, s: &Vec<char>, pos: usize) -> (r: Option<
    (Result<ConfigOption, ConfigError>, usize),
>)
    requires
        s@ == input@,
        pos <= s.len(),
    ensures
        match r {
            Some((option, end)) => token_at(s@, pos as int) matches Some((token, token_end))
                && token_end == end && token.option() == meaning(option) && pos < end <= s.len(),
            None => token_at(s@, pos as int) is None,
        },
{
    proof {
        lemma_token_end(s@, pos as int);
    }
    if starts_at(s, pos, "keep_copyright_comment") {
        let n = chars_of("keep_copyright_comment").len();
        return Some((Ok(ConfigOption::KeepCopyrightComment), pos + n));
    }
    if starts_at(s, pos, "noscopes") {
        let n = chars_of("noscopes").len();
        return Some((Ok(ConfigOption::NoScopes), pos + n));
    }
    if let Some(v) = find_keyed_value(s, pos, "language=", Some(CharClass::Alpha)) {
        let value = slice_of(input, v.start, v.end);
        return Some((Ok(ConfigOption::language(value.as_str())), v.token_end));
    }
    if let Some(v) = find_keyed_value(s, pos, "comment=", None) {
        let value = slice_of(input, v.start, v.end);
        if InfoCommentSyntax::accepts(value.as_str()) {
            return Some((Ok(ConfigOption::info_comment(value.as_str())), v.token_end));
        } else {
            return Some((Err(ConfigError::CommentSyntax(value)), v.token_end));
        }
    }
    if let Some(v) = find_keyed_value(s, pos, "highlight=", Some(CharClass::Highlight)) {
        let value = slice_of(input, v.start, v.end);
        return Some((Ok(ConfigOption::HighlightLines(value)), v.token_end));
    }
    if let Some(v) = find_macro_call(s, pos) {
        let name = slice_of(input, v.start, v.end);
        return match ConfigMacro::parse(name.as_str()) {
            Ok(m) => Some((Ok(ConfigOption::Macro(m)), v.token_end)),
            Err(e) => Some((Err(ConfigError::MacroName(e)), v.token_end)),
        };
    }
    None
}

/// How the reading of an option string ends, as the parser returns it.
pub open spec fn outcome_of(r: Result<Option<Config>, ConfigError>) -> Outcome {
    match r {
        Ok(Some(config)) => Outcome::Done(config@),
        Ok(None) => Outcome::Unrecognized,
        Err(e) => Outcome::Failed(e@),
    }
}

/// Reads an option string token by token. The string must start with a
/// space. Returns the configuration that the tokens give, `None` where the
/// string does not start with a space or one of its tokens is not known,
/// and the error where one of them cannot be read at all.
pub fn parse_config_options(input: &str) -> (r: Result<Option<Config>, ConfigError>)
    ensures
        outcome_of(r) == read_options(input@),
{
    let s = chars_of(input);
    if s.len() == 0 || s[0] != ' ' {
        return Ok(None);
    }
    let mut config = Config::default();
    if s.len() == 1 {
        return Ok(Some(config));
    }
    let mut pos: usize = 1;
    loop
        invariant
            s@ == input@,
            pos < s.len(),
            read_options(input@) == read_from(s@, pos as int, config@),
        decreases s.len() - pos,
    {
        match read_token(input, &s, pos) {
            None => {
                return Ok(None);
            },
            Some((Err(e), _)) => {
                return Err(e);
            },
            Some((Ok(option), end)) => {
                option.apply(&mut config);
                let next = scan(&s, end, CharClass::Space);
                if next >= s.len() {
                    return Ok(Some(config));
                }
                if next == end {
                    return Ok(None);
                }
                pos = next;
            },
        }
    }
}

/// Reads `input` as an option string, with a space put before it where it
/// does not start with one.
fn read_with_space(input: &str) -> (r: Result<Option<Config>, ConfigError>)
    ensures
        outcome_of(r) == outcome(input@),
{
    if starts_at(&chars_of(input), 0, " ") {
        proof {
            reveal_strlit(" ");
            assert(input@.subrange(0, 1)[0] == ' ');
        }
        parse_config_options(input)
    } else {
        let mut spaced = " ".to_owned();
        spaced.append(input);
        proof {
            reveal_strlit(" ");
            if input@.len() > 0 && input@[0] == ' ' {
                assert(input@.subrange(0, 1) =~= " "@);
            }
            assert(spaced@ =~= with_space(input@));
        }
        parse_config_options(spaced.as_str())
    }
}

impl Config {
    /// Reads an option string, with or without the space before it. Where
    /// a token of it is not known, the result is the default configuration.
    /// The string must not hold a token that cannot be read at all: a call
    /// of an unknown macro, or a `comment=` whose value is no syntax pattern.
    pub fn parse(input: &str) -> (r: Self)
        requires
            !(outcome(input@) is Failed),
        ensures
            r@ == parsed(input@),
            outcome(input@) is Unrecognized ==> r@ == ConfigView::default_config(),
    {
        match read_with_space(input) {
            Ok(Some(config)) => config,
            Ok(None) => Config::default(),
            Err(_) => unreached(),
        }
    }

    /// The option string that a snippet comment needs to get this
    /// configuration. It is empty or starts with a space.
    pub fn details(&self) -> (r: String)
        ensures
            r@ == self@.details(),
    {
        let mut s = String::new();
        if self.keep_copyright_comment {
            s.append(" keep_copyright_comment");
        }
        if self.no_scopes {
            s.append(" noscopes");
        }
        assert(s@ =~= self@.flag_details());
        if !(self.language == "python".to_owned()) {
            s.append(" language=");
            if contains(&chars_of(self.language.as_str()), " ") {
                s.append("\"");
                s.append(self.language.as_str());
                s.append("\"");
            } else {
                s.append(self.language.as_str());
            }
        }
        assert(s@ =~= self@.flag_details() + self@.language_details());
        if !self.info_comment.is_default() {
            s.append(" comment=\"");
            s.append(self.info_comment.before.as_str());
            s.append("{}");
            s.append(self.info_comment.after.as_str());
            s.append("\"");
        }
        assert(s@ =~= self@.flag_details() + self@.language_details() + self@.comment_details());
        if let Some(lines) = &self.highlight_lines {
            s.append(" highlight=");
            s.append(lines.as_str());
        }
        assert(s@ =~= self@.details());
        s
    }

    /// Reads an option string as [`Config::parse`] does, and returns the
    /// error where a token of it cannot be read at all.
    pub fn try_parse(input: &str) -> (r: Result<Self, ConfigError>)
        ensures
            match r {
                Ok(config) => !(outcome(input@) is Failed) && config@ == parsed(input@),
                Err(e) => outcome(input@) == Outcome::Failed(e@),
            },
    {
        match read_with_space(input) {
            Ok(Some(config)) => Ok(config),
            Ok(None) => Ok(Config::default()),
            Err(e) => Err(e),
        }
    }
}

} // verus!
