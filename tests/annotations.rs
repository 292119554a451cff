use rfc_mapping::{
    parse_attributes, AttrError, AttrErrorKind, Attribute, FieldAttr, Span, Token, TokenKind,
};

fn sp(start: usize) -> Span {
    Span { start, end: start + 1 }
}

fn ident(s: &str, at: usize) -> Token {
    Token { kind: TokenKind::Ident(s.to_string()), span: sp(at) }
}

fn punct(c: char, at: usize) -> Token {
    Token { kind: TokenKind::Punct(c), span: sp(at) }
}

fn lit(s: &str, at: usize) -> Token {
    Token { kind: TokenKind::Str(s.to_string()), span: sp(at) }
}

fn other(s: &str, at: usize) -> Token {
    Token { kind: TokenKind::Other(s.to_string()), span: sp(at) }
}

fn attr(path: &str, tokens: Vec<Token>) -> Attribute {
    Attribute { path: path.to_string(), has_list: true, tokens, span: Span { start: 100, end: 200 } }
}

fn aliases(attrs: Vec<Attribute>) -> Result<Vec<(String, Span)>, AttrError> {
    parse_attributes(&attrs).map(|v| {
        v.into_iter()
            .map(|w| match w.item {
                FieldAttr::Alias(s) => (s, w.attribute_span),
            })
            .collect()
    })
}

#[test]
fn single_alias_directive() {
    let a = attr("sap", vec![ident("alias", 0), punct('=', 1), lit("EV_TYPE", 2)]);
    let got = aliases(vec![a]).unwrap();
    assert_eq!(got, vec![("EV_TYPE".to_string(), Span { start: 100, end: 200 })]);
}

#[test]
fn several_directives_with_trailing_comma() {
    let a = attr(
        "sap",
        vec![
            ident("alias", 0),
            punct('=', 1),
            lit("A", 2),
            punct(',', 3),
            ident("alias", 4),
            punct('=', 5),
            lit("B", 6),
            punct(',', 7),
        ],
    );
    let got: Vec<String> = aliases(vec![a]).unwrap().into_iter().map(|p| p.0).collect();
    assert_eq!(got, vec!["A".to_string(), "B".to_string()]);
}

#[test]
fn empty_argument_list_gives_no_directive() {
    assert_eq!(aliases(vec![attr("sap", vec![])]).unwrap(), vec![]);
}

#[test]
fn other_namespaces_are_skipped() {
    let a = attr("serde", vec![ident("rename", 0), punct('=', 1), lit("x", 2)]);
    let b = attr("sap", vec![ident("alias", 3), punct('=', 4), lit("WA", 5)]);
    let got: Vec<String> = aliases(vec![a, b]).unwrap().into_iter().map(|p| p.0).collect();
    assert_eq!(got, vec!["WA".to_string()]);
}

#[test]
fn directives_of_several_annotations_in_order() {
    let a = attr("sap", vec![ident("alias", 0), punct('=', 1), lit("FIRST", 2)]);
    let b = attr("sap", vec![ident("alias", 3), punct('=', 4), lit("SECOND", 5)]);
    let got: Vec<String> = aliases(vec![a, b]).unwrap().into_iter().map(|p| p.0).collect();
    assert_eq!(got, vec!["FIRST".to_string(), "SECOND".to_string()]);
}

#[test]
fn key_without_equals_at_end() {
    let e = aliases(vec![attr("sap", vec![ident("alias", 0)])]).unwrap_err();
    assert_eq!(e, AttrError { kind: AttrErrorKind::UnexpectedEnd, span: Span { start: 100, end: 200 } });
    assert!(e.message().contains("expected `=`"));
    assert!(e.message().contains("alias = \"EV_TYPE\""));
}

#[test]
fn key_followed_by_comma() {
    let e = aliases(vec![attr("sap", vec![ident("alias", 0), punct(',', 1)])]).unwrap_err();
    assert_eq!(e, AttrError { kind: AttrErrorKind::ExpectedEq, span: sp(1) });
    assert_eq!(
        e.message(),
        "expected `=`\nhelp: The correct format looks like `#[sap(alias = \"EV_TYPE\")]`"
    );
}

#[test]
fn value_that_is_not_a_string() {
    let e = aliases(vec![attr("sap", vec![ident("alias", 0), punct('=', 1), other("5", 2)])])
        .unwrap_err();
    assert_eq!(e, AttrError { kind: AttrErrorKind::ExpectedStr, span: sp(2) });
    assert_eq!(
        e.message(),
        "expected string literal\nhelp: The correct format looks like `#[sap(alias = \"EV_TYPE\")]`"
    );
}

#[test]
fn value_missing_after_equals() {
    let e = aliases(vec![attr("sap", vec![ident("alias", 0), punct('=', 1)])]).unwrap_err();
    assert_eq!(e, AttrError { kind: AttrErrorKind::ExpectedStr, span: Span { start: 100, end: 200 } });
}

#[test]
fn directives_without_separator() {
    let a = attr(
        "sap",
        vec![ident("alias", 0), punct('=', 1), lit("A", 2), ident("alias", 3)],
    );
    let e = aliases(vec![a]).unwrap_err();
    assert_eq!(e, AttrError { kind: AttrErrorKind::ExpectedComma, span: sp(3) });
}

#[test]
fn unknown_directive_key_is_rejected() {
    let a = attr("sap", vec![ident("rename", 0), punct('=', 1), lit("X", 2)]);
    let e = aliases(vec![a]).unwrap_err();
    assert_eq!(e, AttrError { kind: AttrErrorKind::UnknownKey("rename".to_string()), span: sp(0) });
    assert_eq!(
        e.message(),
        "unknown directive `rename`, expected `alias`\nhelp: The correct format looks like `#[sap(alias = \"EV_TYPE\")]`"
    );
}

#[test]
fn directive_not_starting_with_identifier() {
    let e = aliases(vec![attr("sap", vec![lit("alias", 0)])]).unwrap_err();
    assert_eq!(e, AttrError { kind: AttrErrorKind::ExpectedIdent, span: sp(0) });
}

#[test]
fn first_malformed_annotation_wins() {
    let a = attr("sap", vec![ident("alias", 0)]);
    let b = attr("sap", vec![ident("rename", 1)]);
    let e = aliases(vec![a, b]).unwrap_err();
    assert_eq!(e.kind, AttrErrorKind::UnexpectedEnd);
}

#[test]
fn value_missing_message_has_hint() {
    let e = aliases(vec![attr("sap", vec![ident("alias", 0), punct('=', 1)])]).unwrap_err();
    assert!(e.message().contains("alias = \"EV_TYPE\""));
}

#[test]
fn annotation_without_argument_list_is_rejected() {
    let bare = Attribute { path: "sap".to_string(), has_list: false, tokens: vec![], span: sp(9) };
    let e = aliases(vec![bare]).unwrap_err();
    assert_eq!(e, AttrError { kind: AttrErrorKind::MissingArgs, span: sp(9) });
    assert!(e.message().starts_with("expected attribute arguments in parentheses"));
    let other = Attribute { path: "doc".to_string(), has_list: false, tokens: vec![], span: sp(1) };
    assert_eq!(aliases(vec![other]).unwrap(), vec![]);
}

#[test]
fn directive_past_end_expects_identifier() {
    let toks = vec![ident("alias", 0)];
    let e = FieldAttr::parse(&toks, 1, sp(50)).err().unwrap();
    assert_eq!(e, AttrError { kind: AttrErrorKind::ExpectedIdent, span: sp(50) });
}
