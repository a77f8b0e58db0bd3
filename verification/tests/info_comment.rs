use process_code_snippets::InfoCommentSyntax;

#[test]
fn parse_test() {
    assert_eq!(
        InfoCommentSyntax::parse("// {}"),
        InfoCommentSyntax {
            before: String::from("// "),
            after: String::from("")
        }
    );
    assert_eq!(
        InfoCommentSyntax::parse("<!-- {} -->"),
        InfoCommentSyntax {
            before: String::from("<!-- "),
            after: String::from(" -->")
        }
    );
}

#[test]
fn a_pattern_holds_one_place_and_no_other_brace() {
    assert!(InfoCommentSyntax::accepts("{}"));
    assert!(InfoCommentSyntax::accepts("# {}"));
    assert!(InfoCommentSyntax::accepts("/* {} */\n"));
    assert!(!InfoCommentSyntax::accepts(""));
    assert!(!InfoCommentSyntax::accepts("#"));
    assert!(!InfoCommentSyntax::accepts("{"));
    assert!(!InfoCommentSyntax::accepts("{ }"));
    assert!(!InfoCommentSyntax::accepts("}{"));
    assert!(!InfoCommentSyntax::accepts("{} {}"));
    assert!(!InfoCommentSyntax::accepts("{{}}"));
    assert!(!InfoCommentSyntax::accepts("{} }"));
}

#[test]
fn try_parse_reads_a_pattern_or_gives_none() {
    assert_eq!(
        InfoCommentSyntax::try_parse("<!-- {} -->"),
        Some(InfoCommentSyntax {
            before: String::from("<!-- "),
            after: String::from(" -->")
        })
    );
    assert_eq!(
        InfoCommentSyntax::try_parse("{}"),
        Some(InfoCommentSyntax {
            before: String::new(),
            after: String::new()
        })
    );
    assert_eq!(InfoCommentSyntax::try_parse("<!-- -->"), None);
}

#[test]
fn the_default_syntax_is_a_leading_hash() {
    let syntax = InfoCommentSyntax::default();
    assert_eq!(syntax.before, "# ");
    assert_eq!(syntax.after, "");
    assert!(syntax.is_default());
    assert_eq!(InfoCommentSyntax::parse("# {}"), syntax);
    assert!(!InfoCommentSyntax::parse("#{}").is_default());
}
