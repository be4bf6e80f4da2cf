use better_default::diagnostics::{Diagnostic, DiagnosticKind, Malformed, SyntaxError};
use better_default::field_assign::{
    may_end, parse_assignments, parse_punctuated_unique, parse_terminated, FieldAssign, FieldName,
    OverrideMap,
};
use better_default::model::Location;
use better_default::syntax::Token;

fn ident(name: &str, value: &str) -> FieldAssign {
    FieldAssign { ident: FieldName::Ident(name.to_string()), value: value.to_string() }
}

fn position(name: &str, value: &str) -> FieldAssign {
    FieldAssign { ident: FieldName::IntLiteral(name.to_string()), value: value.to_string() }
}

fn failure(entry: Option<usize>, reason: Malformed) -> Result<Vec<FieldAssign>, SyntaxError> {
    Err(SyntaxError { entry, reason })
}

fn token(text: &str) -> Token {
    Token { text: text.to_string(), joint: false }
}

fn joint(text: &str) -> Token {
    Token { text: text.to_string(), joint: true }
}

fn names(list: &[&str]) -> Vec<String> {
    list.iter().map(|name| name.to_string()).collect()
}

#[test]
fn named_assignments_in_the_order_written() {
    assert_eq!(
        parse_assignments("first: 0, second: \"aaaaaa\".to_string()"),
        Ok(vec![ident("first", "0"), ident("second", "\"aaaaaa\" . to_string ()")])
    );
}

#[test]
fn positional_assignment() {
    assert_eq!(parse_assignments("1: \"aaaa\""), Ok(vec![position("1", "\"aaaa\"")]));
}

#[test]
fn empty_list_and_trailing_comma() {
    assert_eq!(parse_assignments(""), Ok(vec![]));
    assert_eq!(parse_assignments("  "), Ok(vec![]));
    assert_eq!(parse_assignments("a: 1,"), Ok(vec![ident("a", "1")]));
    assert_eq!(parse_assignments("a: 1, b: 2 ,"), Ok(vec![ident("a", "1"), ident("b", "2")]));
}

#[test]
fn commas_inside_an_expression_do_not_end_it() {
    assert_eq!(
        parse_assignments("a: f(1, 2), b: [3, 4], c: (5, 6)"),
        Ok(vec![ident("a", "f (1 , 2)"), ident("b", "[3 , 4]"), ident("c", "(5 , 6)")])
    );
    assert_eq!(
        parse_assignments("a: |x, y| x + y, b: 2"),
        Ok(vec![ident("a", "| x , y | x + y"), ident("b", "2")])
    );
    assert_eq!(
        parse_assignments("a: HashMap::<u8, u8>::new(), b: 2"),
        Ok(vec![ident("a", "HashMap ::< u8 , u8 >:: new ()"), ident("b", "2")])
    );
}

#[test]
fn joint_punctuation_keeps_its_neighbour() {
    assert_eq!(
        parse_assignments("a: x <= y && -1 != z, b: f::<'static>()"),
        Ok(vec![
            ident("a", "x <= y && - 1 != z"),
            ident("b", "f ::<'static > ()"),
        ])
    );
}

#[test]
fn negative_value() {
    assert_eq!(parse_assignments("0: -1"), Ok(vec![position("0", "- 1")]));
}

#[test]
fn identity_must_be_an_identifier_or_an_integer_literal() {
    assert_eq!(parse_assignments("type: 1"), failure(Some(0), Malformed::Identity));
    assert_eq!(parse_assignments("\"a\": 1"), failure(Some(0), Malformed::Identity));
    assert_eq!(parse_assignments("1.5: 1"), failure(Some(0), Malformed::Identity));
    assert_eq!(parse_assignments("-1: 1"), failure(Some(0), Malformed::Identity));
    assert_eq!(parse_assignments("(a): 1"), failure(Some(0), Malformed::Identity));
    assert_eq!(parse_assignments("a: 1, , b: 2"), failure(Some(1), Malformed::Identity));
    assert_eq!(parse_assignments(","), failure(Some(0), Malformed::Identity));
}

#[test]
fn identity_keeps_the_text_of_its_token() {
    assert_eq!(
        parse_assignments("r#type: 1, 0u32: 2, 0x1: 3, 01: 4"),
        Ok(vec![ident("r#type", "1"), position("0u32", "2"), position("0x1", "3"), position("01", "4")])
    );
}

#[test]
fn colon_must_follow_the_identity() {
    assert_eq!(parse_assignments("a"), failure(Some(0), Malformed::Colon));
    assert_eq!(parse_assignments("a = 1"), failure(Some(0), Malformed::Colon));
    assert_eq!(parse_assignments("a: 1, b 2"), failure(Some(1), Malformed::Colon));
    assert_eq!(parse_assignments("10"), failure(Some(0), Malformed::Colon));
}

#[test]
fn expression_must_follow_the_colon() {
    assert_eq!(parse_assignments("a:"), failure(Some(0), Malformed::Expression));
    assert_eq!(parse_assignments("a: , b: 1"), failure(Some(0), Malformed::Expression));
    assert_eq!(parse_assignments("a: 1 2"), failure(Some(0), Malformed::Expression));
    assert_eq!(parse_assignments("a: 1 +, b: 2"), failure(Some(0), Malformed::Expression));
    assert_eq!(parse_assignments("a: 1, b: let"), failure(Some(1), Malformed::Expression));
    assert_eq!(parse_assignments("a::b"), failure(Some(0), Malformed::Expression));
}

#[test]
fn text_that_is_no_token_sequence() {
    assert_eq!(parse_assignments("a: (1"), failure(None, Malformed::Tokens));
    assert_eq!(parse_assignments("a: 1)"), failure(None, Malformed::Tokens));
    assert_eq!(parse_assignments("a: \"open"), failure(None, Malformed::Tokens));
}

#[test]
fn field_name_from_one_token() {
    assert_eq!(FieldName::parse(&token("field")), Some(FieldName::Ident("field".to_string())));
    assert_eq!(FieldName::parse(&token("12")), Some(FieldName::IntLiteral("12".to_string())));
    assert_eq!(FieldName::parse(&token("self")), None);
    assert_eq!(FieldName::parse(&token("_")), None);
    assert_eq!(FieldName::parse(&token("1.0")), None);
    assert_eq!(FieldName::parse(&token("'a'")), None);
    assert_eq!(FieldName::parse(&token("a b")), None);
    assert_eq!(FieldName::parse(&token("")), None);
    assert_eq!(FieldName::Ident("field".to_string()).to_string(), "field");
    assert_eq!(FieldName::IntLiteral("12".to_string()).to_string(), "12");
}

#[test]
fn one_assignment_from_tokens() {
    let tokens = vec![
        token("skipped"),
        token("a"),
        token(":"),
        joint("-"),
        token("1"),
        token(","),
        token("b"),
    ];
    assert_eq!(FieldAssign::parse(&tokens, 1), Ok((ident("a", "-1"), 5)));
    assert_eq!(FieldAssign::parse(&tokens, 0), Err(Malformed::Colon));
    assert_eq!(FieldAssign::parse(&tokens, 2), Err(Malformed::Identity));
    assert_eq!(FieldAssign::parse(&tokens, 6), Err(Malformed::Colon));
    assert_eq!(FieldAssign::parse(&tokens, 7), Err(Malformed::Identity));
    assert_eq!(FieldAssign::parse(&tokens, 70), Err(Malformed::Identity));
}

#[test]
fn assignments_from_tokens() {
    let tokens = vec![
        token("a"),
        token(":"),
        token("x"),
        joint(":"),
        token(":"),
        token("y"),
        token(","),
        token("0"),
        token(":"),
        token("(1 , 2)"),
    ];
    assert_eq!(
        parse_terminated(&tokens),
        Ok(vec![ident("a", "x :: y"), position("0", "(1 , 2)")])
    );
    assert_eq!(parse_terminated(&Vec::new()), Ok(vec![]));
}

#[test]
fn first_assignment_to_a_field_counts() {
    let mut diagnostics = Vec::new();
    let map: OverrideMap = parse_punctuated_unique(
        vec![ident("a", "1"), ident("b", "2"), ident("a", "3")],
        &names(&["a", "b", "c"]),
        Location { node: 8, entry: None },
        &mut diagnostics,
    );
    assert_eq!(map.len(), 2);
    assert_eq!(map.get("a"), Some(&"1".to_string()));
    assert_eq!(map.get("b"), Some(&"2".to_string()));
    assert_eq!(map.get("c"), None);
    assert!(map.contains_key("a"));
    assert!(!map.contains_key("c"));
    assert_eq!(
        diagnostics,
        vec![
            Diagnostic {
                location: Location { node: 8, entry: Some(2) },
                kind: DiagnosticKind::DuplicateFieldAssignment,
            },
        ]
    );
}

#[test]
fn unknown_field_never_enters_the_map() {
    let mut diagnostics = vec![
        Diagnostic { location: Location { node: 1, entry: None }, kind: DiagnosticKind::NoDefaultVariant },
    ];
    let map = parse_punctuated_unique(
        vec![ident("x", "1"), position("0", "2"), position("2", "3"), ident("x", "4")],
        &names(&["0", "1"]),
        Location { node: 8, entry: Some(5) },
        &mut diagnostics,
    );
    assert_eq!(map.len(), 1);
    assert_eq!(map.get("0"), Some(&"2".to_string()));
    assert!(!map.contains_key("x"));
    assert!(!map.contains_key("2"));
    assert_eq!(
        diagnostics,
        vec![
            Diagnostic {
                location: Location { node: 1, entry: None },
                kind: DiagnosticKind::NoDefaultVariant,
            },
            Diagnostic {
                location: Location { node: 8, entry: Some(0) },
                kind: DiagnosticKind::UnknownField("x".to_string()),
            },
            Diagnostic {
                location: Location { node: 8, entry: Some(2) },
                kind: DiagnosticKind::UnknownField("2".to_string()),
            },
            Diagnostic {
                location: Location { node: 8, entry: Some(3) },
                kind: DiagnosticKind::UnknownField("x".to_string()),
            },
        ]
    );
}

#[test]
fn override_map_replaces_on_insert() {
    let mut map = OverrideMap::new();
    assert_eq!(map.len(), 0);
    map.insert("a".to_string(), "1".to_string());
    map.insert("a".to_string(), "2".to_string());
    assert_eq!(map.len(), 1);
    assert_eq!(map.get("a"), Some(&"2".to_string()));
}

#[test]
fn wording_of_malformed_arguments() {
    let message = |reason: Malformed| {
        Diagnostic {
            location: Location { node: 0, entry: None },
            kind: DiagnosticKind::MalformedArguments(reason),
        }.message()
    };
    assert_eq!(message(Malformed::Form), "expected arguments in parentheses, or a bare annotation");
    assert_eq!(message(Malformed::Tokens), "expected a sequence of tokens");
    assert_eq!(message(Malformed::Identity), "expected a field name or a field position");
    assert_eq!(message(Malformed::Colon), "expected `:`");
    assert_eq!(message(Malformed::Expression), "expected an expression");
}

#[test]
fn comments_are_no_tokens() {
    assert_eq!(
        parse_assignments("a: 1 /* one */, // the rest\n b: 2"),
        Ok(vec![ident("a", "1"), ident("b", "2")])
    );
}

#[test]
fn texts_of_any_kind_are_answered() {
    let nested = format!("a: {}1{}", "(".repeat(200), ")".repeat(200));
    let long = "a: 1, ".repeat(500);
    let texts = [
        "\u{feff}a: 1",
        "a: 'x', b: '\\n', c: b'x', d: \"\\u{1F600}\"",
        "é: 1",
        "a: \u{1F600}",
        "a: r#\"raw \" text\"#",
        "a: 1e10, b: 0b1010, c: 0o17, d: 1_000u64",
        "'",
        "\\",
        "a: #![inner]",
        "/// documented\na: 1",
        "a: 1;",
        "a: $x",
        "0: 0: 0",
        nested.as_str(),
        long.as_str(),
    ];
    for text in texts {
        let first = parse_assignments(text);
        let second = parse_assignments(text);
        assert_eq!(first, second);
    }
    assert_eq!(parse_assignments(long.as_str()).map(|list| list.len()), Ok(500));
    assert_eq!(parse_assignments(nested.as_str()).map(|list| list.len()), Ok(1));
    assert_eq!(parse_assignments("\u{feff}a: 1"), Ok(vec![ident("a", "1")]));
    assert_eq!(parse_assignments("é: 1"), Ok(vec![ident("é", "1")]));
    assert_eq!(parse_assignments("a: 1;"), failure(Some(0), Malformed::Expression));
    assert_eq!(parse_assignments("0: 0: 0"), failure(Some(0), Malformed::Expression));
}

#[test]
fn signed_literal_is_no_identity() {
    assert_eq!(FieldName::parse(&token("-1")), None);
    assert_eq!(FieldName::parse(&token("- 1")), None);
    assert_eq!(FieldName::parse(&token("1")), Some(FieldName::IntLiteral("1".to_string())));
}

#[test]
fn identity_from_the_answers_of_the_parser() {
    let name = token("name");
    assert_eq!(
        FieldName::from_answers(&name, true, false),
        Some(FieldName::Ident("name".to_string()))
    );
    assert_eq!(
        FieldName::from_answers(&name, true, true),
        Some(FieldName::Ident("name".to_string()))
    );
    assert_eq!(
        FieldName::from_answers(&token("7"), false, true),
        Some(FieldName::IntLiteral("7".to_string()))
    );
    assert_eq!(FieldName::from_answers(&token("-7"), false, true), None);
    assert_eq!(FieldName::from_answers(&token("7"), false, false), None);
    assert_eq!(FieldName::from_answers(&token(""), false, true), Some(FieldName::IntLiteral(String::new())));
}

#[test]
fn expression_may_end_before_a_comma_or_at_the_end() {
    let tokens = vec![token("a"), token(":"), token("1"), token(","), token("b")];
    assert!(may_end(&tokens, 2, 3, true));
    assert!(!may_end(&tokens, 2, 3, false));
    assert!(!may_end(&tokens, 2, 4, true));
    assert!(may_end(&tokens, 2, 5, true));
    assert!(may_end(&tokens, 5, 5, true));
    assert!(!may_end(&tokens, 2, 6, true));
    assert!(!may_end(&tokens, 4, 3, true));
    assert!(may_end(&tokens, 3, 3, true));
}

#[test]
fn assignment_from_findings() {
    let name = Some(FieldName::Ident("a".to_string()));
    assert_eq!(
        FieldAssign::from_findings(name.clone(), true, Some((5, "1".to_string()))),
        Ok((ident("a", "1"), 5))
    );
    assert_eq!(
        FieldAssign::from_findings(None, true, Some((5, "1".to_string()))),
        Err(Malformed::Identity)
    );
    assert_eq!(
        FieldAssign::from_findings(name.clone(), false, Some((5, "1".to_string()))),
        Err(Malformed::Colon)
    );
    assert_eq!(FieldAssign::from_findings(name, true, None), Err(Malformed::Expression));
    assert_eq!(FieldAssign::from_findings(None, false, None), Err(Malformed::Identity));
}
