use better_default::attrs::{find_attribute_and_duplicates, find_attribute_unique, DEFAULT_IDENT};
use better_default::diagnostics::{report, Diagnostic, DiagnosticKind};
use better_default::model::{Annotation, ArgumentForm, Location};
use better_default::text::{contains_text, decimal, same_text};

fn annotation(identifier: &str, node: u64) -> Annotation {
    Annotation {
        identifier: identifier.to_string(),
        form: ArgumentForm::Bare,
        location: Location { node, entry: None },
    }
}

#[test]
fn marker_is_the_word_default() {
    assert_eq!(DEFAULT_IDENT, "default");
}

#[test]
fn no_annotation_of_the_identifier() {
    let annotations = vec![annotation("derive", 1), annotation("Default", 2)];
    assert_eq!(find_attribute_and_duplicates(&annotations, "default"), None);
    assert_eq!(find_attribute_and_duplicates(&Vec::new(), "default"), None);
    let mut diagnostics = Vec::new();
    assert_eq!(find_attribute_unique(&annotations, "default", &mut diagnostics), None);
    assert!(diagnostics.is_empty());
}

#[test]
fn first_match_and_every_later_one() {
    let annotations = vec![
        annotation("derive", 1),
        annotation("default", 2),
        annotation("doc", 3),
        annotation("default", 4),
        annotation("default", 5),
    ];
    let (first, rest) = find_attribute_and_duplicates(&annotations, "default").unwrap();
    assert_eq!(first, &annotations[1]);
    assert_eq!(rest, vec![&annotations[3], &annotations[4]]);
    let (first, rest) = find_attribute_and_duplicates(&annotations, "doc").unwrap();
    assert_eq!(first, &annotations[2]);
    assert!(rest.is_empty());
}

#[test]
fn each_repetition_is_reported_at_its_place() {
    let annotations = vec![
        annotation("default", 2),
        annotation("doc", 3),
        annotation("default", 4),
        annotation("default", 5),
    ];
    let mut diagnostics = vec![
        Diagnostic {
            location: Location { node: 9, entry: None },
            kind: DiagnosticKind::NoDefaultVariant,
        },
    ];
    let found = find_attribute_unique(&annotations, "default", &mut diagnostics);
    assert_eq!(found, Some(&annotations[0]));
    assert_eq!(
        diagnostics,
        vec![
            Diagnostic {
                location: Location { node: 9, entry: None },
                kind: DiagnosticKind::NoDefaultVariant,
            },
            Diagnostic {
                location: Location { node: 4, entry: None },
                kind: DiagnosticKind::DuplicateAnnotation,
            },
            Diagnostic {
                location: Location { node: 5, entry: None },
                kind: DiagnosticKind::DuplicateAnnotation,
            },
        ]
    );
}

#[test]
fn identifier_is_matched_exactly() {
    let annotations = vec![
        annotation("Default", 1),
        annotation("default ", 2),
        annotation("serde :: default", 3),
        annotation("r#default", 4),
        annotation("", 5),
    ];
    assert_eq!(find_attribute_and_duplicates(&annotations, "default"), None);
    assert_eq!(
        find_attribute_and_duplicates(&annotations, "").map(|(first, _)| first.location.node),
        Some(5)
    );
}

#[test]
fn report_appends() {
    let mut diagnostics = Vec::new();
    report(
        &mut diagnostics,
        Location { node: 1, entry: Some(2) },
        DiagnosticKind::UnknownField("x".to_string()),
    );
    report(&mut diagnostics, Location { node: 3, entry: None }, DiagnosticKind::NoDefaultVariant);
    assert_eq!(
        diagnostics,
        vec![
            Diagnostic {
                location: Location { node: 1, entry: Some(2) },
                kind: DiagnosticKind::UnknownField("x".to_string()),
            },
            Diagnostic {
                location: Location { node: 3, entry: None },
                kind: DiagnosticKind::NoDefaultVariant,
            },
        ]
    );
}

#[test]
fn decimal_numerals() {
    assert_eq!(decimal(0), "0");
    assert_eq!(decimal(7), "7");
    assert_eq!(decimal(9), "9");
    assert_eq!(decimal(10), "10");
    assert_eq!(decimal(42), "42");
    assert_eq!(decimal(100), "100");
    assert_eq!(decimal(1234567890), "1234567890");
    assert_eq!(decimal(usize::MAX), usize::MAX.to_string());
}

#[test]
fn texts_compared_and_searched() {
    assert!(same_text("default", "default"));
    assert!(!same_text("default", "Default"));
    assert!(!same_text("default", "defaul"));
    assert!(same_text("", ""));
    let texts = vec!["a".to_string(), "b".to_string()];
    assert!(contains_text(&texts, "a"));
    assert!(contains_text(&texts, "b"));
    assert!(!contains_text(&texts, "c"));
    assert!(!contains_text(&texts, ""));
    assert!(!contains_text(&Vec::new(), "a"));
}
