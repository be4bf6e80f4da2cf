use better_default::derive::{
    default_enum, derive_struct, get_fields_name, parse_top_attribute, ConstructorExpression,
    TargetPath,
};
use better_default::diagnostics::{Diagnostic, DiagnosticKind, Malformed};
use better_default::field_assign::OverrideMap;
use better_default::fields::{
    derive_fields, effective_expression, fallback, get_field_default_values, own_expression,
    resolve_field, Body, DefaultValue, Shape,
};
use better_default::model::{
    Annotation, ArgumentForm, Field, FieldList, Location, NamedField, Variant,
};

fn at(node: u64) -> Location {
    Location { node, entry: None }
}

fn marked(node: u64, form: ArgumentForm) -> Annotation {
    Annotation { identifier: "default".to_string(), form, location: at(node) }
}

fn list(node: u64, text: &str) -> Annotation {
    marked(node, ArgumentForm::List(text.to_string()))
}

fn named(name: &str, ty: &str, annotations: Vec<Annotation>) -> NamedField {
    NamedField { name: name.to_string(), field: positional(ty, annotations) }
}

fn positional(ty: &str, annotations: Vec<Annotation>) -> Field {
    Field { ty: ty.to_string(), annotations }
}

fn value(ident: Option<&str>, value: &str) -> DefaultValue {
    DefaultValue { ident: ident.map(|name| name.to_string()), value: value.to_string() }
}

fn overrides(entries: &[(&str, &str)]) -> OverrideMap {
    let mut map = OverrideMap::new();
    for (key, value) in entries {
        map.insert(key.to_string(), value.to_string());
    }
    map
}

fn names(list: &[&str]) -> Vec<String> {
    list.iter().map(|name| name.to_string()).collect()
}

#[test]
fn identities_of_named_and_positional_fields() {
    let fields = FieldList::Named(vec![named("first", "u8", vec![]), named("second", "u8", vec![])]);
    assert_eq!(get_fields_name(&fields), names(&["first", "second"]));
    let fields = FieldList::Positional(vec![
        positional("u8", vec![]),
        positional("u8", vec![]),
        positional("u8", vec![]),
    ]);
    assert_eq!(get_fields_name(&fields), names(&["0", "1", "2"]));
    let many = FieldList::Positional((0..12).map(|_| positional("u8", vec![])).collect());
    assert_eq!(get_fields_name(&many)[11], "11");
    assert_eq!(get_fields_name(&FieldList::Empty), Vec::<String>::new());
    assert_eq!(get_fields_name(&FieldList::Named(vec![])), Vec::<String>::new());
}

#[test]
fn value_by_precedence() {
    let fields = FieldList::Named(vec![
        named("own", "A", vec![list(1, "1")]),
        named("both", "B", vec![list(2, "2")]),
        named("top", "C", vec![]),
        named("none", "D", vec![]),
    ]);
    let top = overrides(&[("both", "20"), ("top", "30"), ("elsewhere", "40")]);
    let mut diagnostics = Vec::new();
    let values = get_field_default_values(Some(&top), &fields, &mut diagnostics);
    assert_eq!(
        values,
        vec![
            value(Some("own"), "1"),
            value(Some("both"), "2"),
            value(Some("top"), "30"),
            value(Some("none"), "<D as Default>::default()"),
        ]
    );
    assert_eq!(
        diagnostics,
        vec![Diagnostic { location: at(2), kind: DiagnosticKind::ConflictingDefaultSource }]
    );
    let mut without = Vec::new();
    let values = get_field_default_values(None, &fields, &mut without);
    assert_eq!(values[1], value(Some("both"), "2"));
    assert_eq!(values[2], value(Some("top"), "<C as Default>::default()"));
    assert!(without.is_empty());
}

#[test]
fn positional_fields_are_found_by_position() {
    let fields = FieldList::Positional(vec![
        positional("A", vec![]),
        positional("B", vec![]),
        positional("C", vec![list(1, "c")]),
    ]);
    let top = overrides(&[("1", "b"), ("2", "other")]);
    let mut diagnostics = Vec::new();
    let values = get_field_default_values(Some(&top), &fields, &mut diagnostics);
    assert_eq!(
        values,
        vec![value(None, "<A as Default>::default()"), value(None, "b"), value(None, "c")]
    );
    assert_eq!(
        diagnostics,
        vec![Diagnostic { location: at(1), kind: DiagnosticKind::ConflictingDefaultSource }]
    );
}

#[test]
fn field_level_arguments_must_be_one_expression() {
    let fields = FieldList::Named(vec![
        named("a", "A", vec![list(1, "first: 0, second: 1")]),
        named("b", "B", vec![list(2, "")]),
        named("c", "C", vec![list(3, "1, 2")]),
        named("d", "D", vec![list(4, "vec![1, 2]")]),
        named("e", "E", vec![list(5, "(")]),
    ]);
    let top = overrides(&[("a", "10")]);
    let mut diagnostics = Vec::new();
    let values = get_field_default_values(Some(&top), &fields, &mut diagnostics);
    assert_eq!(
        values,
        vec![
            value(Some("a"), "10"),
            value(Some("b"), "<B as Default>::default()"),
            value(Some("c"), "<C as Default>::default()"),
            value(Some("d"), "vec![1, 2]"),
            value(Some("e"), "<E as Default>::default()"),
        ]
    );
    let malformed = |node: u64| Diagnostic {
        location: at(node),
        kind: DiagnosticKind::MalformedArguments(Malformed::Expression),
    };
    assert_eq!(diagnostics, vec![malformed(1), malformed(2), malformed(3), malformed(5)]);
}

#[test]
fn bare_and_assigned_forms_give_a_field_no_value() {
    let fields = FieldList::Named(vec![
        named("a", "A", vec![marked(1, ArgumentForm::Bare)]),
        named("b", "B", vec![marked(2, ArgumentForm::NameValue("5".to_string())), list(3, "6")]),
    ]);
    let mut diagnostics = Vec::new();
    let values = get_field_default_values(None, &fields, &mut diagnostics);
    assert_eq!(
        values,
        vec![
            value(Some("a"), "<A as Default>::default()"),
            value(Some("b"), "<B as Default>::default()"),
        ]
    );
    assert_eq!(
        diagnostics,
        vec![
            Diagnostic {
                location: at(1),
                kind: DiagnosticKind::MalformedArguments(Malformed::Form),
            },
            Diagnostic { location: at(3), kind: DiagnosticKind::DuplicateAnnotation },
            Diagnostic {
                location: at(2),
                kind: DiagnosticKind::MalformedArguments(Malformed::Form),
            },
        ]
    );
}

#[test]
fn body_takes_its_shape_from_the_field_list() {
    let mut diagnostics = Vec::new();
    let body = derive_fields(
        None,
        &FieldList::Named(vec![named("a", "A", vec![list(1, "1")]), named("b", "B", vec![])]),
        &mut diagnostics,
    );
    assert_eq!(
        body,
        Body {
            shape: Shape::Braced,
            values: vec![value(Some("a"), "1"), value(Some("b"), "<B as Default>::default()")],
        }
    );
    assert_eq!(body.to_text(), " { a: 1, b: <B as Default>::default() }");
    let body = derive_fields(
        None,
        &FieldList::Positional(vec![positional("A", vec![list(1, "1")])]),
        &mut diagnostics,
    );
    assert_eq!(body, Body { shape: Shape::Tuple, values: vec![value(None, "1")] });
    assert_eq!(body.to_text(), "(1)");
    let body = derive_fields(None, &FieldList::Empty, &mut diagnostics);
    assert_eq!(body, Body { shape: Shape::Empty, values: vec![] });
    assert_eq!(body.to_text(), "");
    assert!(diagnostics.is_empty());
    assert_eq!(value(Some("a"), "1").to_text(), "a: 1");
    assert_eq!(value(None, "1").to_text(), "1");
}

#[test]
fn annotation_of_a_record_or_variant_read_into_a_map() {
    let mut diagnostics = Vec::new();
    let map = parse_top_attribute(
        &list(1, "a: 1, b: f(2, 3)"),
        &names(&["a", "b"]),
        true,
        &mut diagnostics,
    ).unwrap();
    assert_eq!(map.len(), 2);
    assert_eq!(map.get("a"), Some(&"1".to_string()));
    assert_eq!(map.get("b"), Some(&"f (2 , 3)".to_string()));
    assert!(diagnostics.is_empty());
}

#[test]
fn bare_annotation_is_a_fault_only_where_a_list_is_required() {
    let bare = marked(1, ArgumentForm::Bare);
    let mut diagnostics = Vec::new();
    assert!(parse_top_attribute(&bare, &names(&["a"]), false, &mut diagnostics).is_none());
    assert!(diagnostics.is_empty());
    assert!(parse_top_attribute(&bare, &names(&["a"]), true, &mut diagnostics).is_none());
    assert_eq!(
        diagnostics,
        vec![
            Diagnostic {
                location: at(1),
                kind: DiagnosticKind::MalformedArguments(Malformed::Form),
            },
        ]
    );
}

#[test]
fn assigned_value_is_always_a_fault() {
    let assigned = marked(1, ArgumentForm::NameValue("1".to_string()));
    for require_list in [false, true] {
        let mut diagnostics = Vec::new();
        assert!(parse_top_attribute(&assigned, &names(&["a"]), require_list, &mut diagnostics).is_none());
        assert_eq!(
            diagnostics,
            vec![
                Diagnostic {
                    location: at(1),
                    kind: DiagnosticKind::MalformedArguments(Malformed::Form),
                },
            ]
        );
    }
}

#[test]
fn unreadable_list_is_reported_where_reading_stopped() {
    let mut diagnostics = Vec::new();
    assert!(parse_top_attribute(&list(1, "a: 1, b: "), &names(&["a"]), true, &mut diagnostics).is_none());
    assert!(parse_top_attribute(&list(2, "a: ]"), &names(&["a"]), false, &mut diagnostics).is_none());
    assert!(parse_top_attribute(&list(3, "10"), &names(&["a"]), true, &mut diagnostics).is_none());
    assert_eq!(
        diagnostics,
        vec![
            Diagnostic {
                location: Location { node: 1, entry: Some(1) },
                kind: DiagnosticKind::MalformedArguments(Malformed::Expression),
            },
            Diagnostic {
                location: at(2),
                kind: DiagnosticKind::MalformedArguments(Malformed::Tokens),
            },
            Diagnostic {
                location: Location { node: 3, entry: Some(0) },
                kind: DiagnosticKind::MalformedArguments(Malformed::Colon),
            },
        ]
    );
}

#[test]
fn empty_list_gives_an_empty_map() {
    let mut diagnostics = Vec::new();
    let map = parse_top_attribute(&list(1, ""), &names(&["a"]), true, &mut diagnostics).unwrap();
    assert_eq!(map.len(), 0);
    assert!(diagnostics.is_empty());
}

#[test]
fn constructor_of_a_record() {
    let mut diagnostics = Vec::new();
    let top = list(1, "0: 1, 5: 2");
    let constructor = derive_struct(
        Some(&top),
        "Pair",
        &FieldList::Positional(vec![positional("u8", vec![]), positional("u8", vec![])]),
        &mut diagnostics,
    );
    assert_eq!(
        constructor,
        ConstructorExpression::Construct {
            target: TargetPath { name: "Pair".to_string(), variant: None },
            body: Body {
                shape: Shape::Tuple,
                values: vec![value(None, "1"), value(None, "<u8 as Default>::default()")],
            },
        }
    );
    assert_eq!(
        diagnostics,
        vec![
            Diagnostic {
                location: Location { node: 1, entry: Some(1) },
                kind: DiagnosticKind::UnknownField("5".to_string()),
            },
        ]
    );
}

#[test]
fn constructor_of_a_tagged_union() {
    let variants = vec![
        Variant { name: "A".to_string(), annotations: vec![], fields: FieldList::Empty },
        Variant {
            name: "B".to_string(),
            annotations: vec![list(1, "x: 1")],
            fields: FieldList::Named(vec![named("x", "u8", vec![]), named("y", "u8", vec![list(2, "2")])]),
        },
    ];
    let mut diagnostics = Vec::new();
    let constructor = default_enum(None, "Choice", &variants, at(0), &mut diagnostics);
    assert_eq!(
        constructor,
        ConstructorExpression::Construct {
            target: TargetPath { name: "Choice".to_string(), variant: Some("B".to_string()) },
            body: Body {
                shape: Shape::Braced,
                values: vec![value(Some("x"), "1"), value(Some("y"), "2")],
            },
        }
    );
    assert!(diagnostics.is_empty());
    let top = marked(9, ArgumentForm::Bare);
    let constructor = default_enum(Some(&top), "Choice", &variants[..1].to_vec(), at(7), &mut diagnostics);
    assert_eq!(constructor, ConstructorExpression::Unreachable);
    assert_eq!(
        diagnostics,
        vec![
            Diagnostic { location: at(9), kind: DiagnosticKind::TopLevelOnTaggedUnion },
            Diagnostic { location: at(7), kind: DiagnosticKind::NoDefaultVariant },
        ]
    );
}

#[test]
fn expression_by_precedence_of_its_sources() {
    let own = "1".to_string();
    let top = "2".to_string();
    assert_eq!(effective_expression(Some(&own), Some(&top), "u8"), "1");
    assert_eq!(effective_expression(Some(&own), None, "u8"), "1");
    assert_eq!(effective_expression(None, Some(&top), "u8"), "2");
    assert_eq!(effective_expression(None, None, "u8"), "<u8 as Default>::default()");
    assert_eq!(fallback("&'l str"), "<&'l str as Default>::default()");
    assert_eq!(fallback(""), "< as Default>::default()");
}

#[test]
fn positional_fields_are_identified_by_position_alone() {
    let fields = FieldList::Positional(vec![positional("x", vec![]), positional("0", vec![])]);
    assert_eq!(get_fields_name(&fields), names(&["0", "1"]));
    assert_eq!(fields.len(), 2);
    let (label, identity, field) = fields.member(1).unwrap();
    assert_eq!(label, None);
    assert_eq!(identity, "1");
    assert_eq!(field.ty, "0");
    assert_eq!(fields.member(2), None);
    let top = overrides(&[("x", "wrong"), ("0", "right")]);
    let mut diagnostics = Vec::new();
    let values = get_field_default_values(Some(&top), &fields, &mut diagnostics);
    assert_eq!(values, vec![value(None, "right"), value(None, "<0 as Default>::default()")]);
    assert!(diagnostics.is_empty());
}

#[test]
fn named_fields_are_identified_and_labelled_by_name() {
    let fields = FieldList::Named(vec![named("0", "A", vec![]), named("x", "B", vec![])]);
    assert_eq!(get_fields_name(&fields), names(&["0", "x"]));
    assert_eq!(fields.len(), 2);
    let (label, identity, field) = fields.member(1).unwrap();
    assert_eq!(label, Some(&"x".to_string()));
    assert_eq!(identity, "x");
    assert_eq!(field.ty, "B");
    assert_eq!(fields.member(2), None);
    let top = overrides(&[("1", "wrong"), ("x", "right")]);
    let mut diagnostics = Vec::new();
    let values = get_field_default_values(Some(&top), &fields, &mut diagnostics);
    assert_eq!(
        values,
        vec![value(Some("0"), "<A as Default>::default()"), value(Some("x"), "right")]
    );
    assert_eq!(FieldList::Empty.len(), 0);
    assert_eq!(FieldList::Empty.member(0), None);
}

#[test]
fn field_resolved_from_what_its_annotation_gives() {
    let own = "1".to_string();
    let top = "2".to_string();
    let mut diagnostics = Vec::new();
    assert_eq!(resolve_field(None, None, "T", &mut diagnostics), "<T as Default>::default()");
    assert_eq!(resolve_field(None, Some(&top), "T", &mut diagnostics), "2");
    assert_eq!(resolve_field(Some((at(1), Ok(&own))), None, "T", &mut diagnostics), "1");
    assert!(diagnostics.is_empty());
    assert_eq!(resolve_field(Some((at(2), Ok(&own))), Some(&top), "T", &mut diagnostics), "1");
    assert_eq!(
        resolve_field(Some((at(3), Err(Malformed::Expression))), Some(&top), "T", &mut diagnostics),
        "2"
    );
    assert_eq!(
        resolve_field(Some((at(4), Err(Malformed::Form))), None, "T", &mut diagnostics),
        "<T as Default>::default()"
    );
    assert_eq!(
        diagnostics,
        vec![
            Diagnostic { location: at(2), kind: DiagnosticKind::ConflictingDefaultSource },
            Diagnostic {
                location: at(3),
                kind: DiagnosticKind::MalformedArguments(Malformed::Expression),
            },
            Diagnostic {
                location: at(4),
                kind: DiagnosticKind::MalformedArguments(Malformed::Form),
            },
        ]
    );
}

#[test]
fn annotation_gives_its_list_where_the_parser_accepts_it() {
    let text = "10".to_string();
    let listed = list(1, "10");
    assert_eq!(own_expression(&listed, true), Ok(&text));
    assert_eq!(own_expression(&listed, false), Err(Malformed::Expression));
    let bare = marked(1, ArgumentForm::Bare);
    assert_eq!(own_expression(&bare, true), Err(Malformed::Form));
    assert_eq!(own_expression(&bare, false), Err(Malformed::Form));
    let assigned = marked(1, ArgumentForm::NameValue("10".to_string()));
    assert_eq!(own_expression(&assigned, true), Err(Malformed::Form));
}
