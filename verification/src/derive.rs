//! From a declaration to the constructor of its default value.

use vstd::prelude::*;
use vstd::string::*;
use crate::attrs::{duplicate_diagnostics, find_attribute_unique, first_match, DEFAULT_IDENT};
use crate::diagnostics::{report, Diagnostic, DiagnosticKind, DiagnosticKindView, DiagnosticView};
use crate::field_assign::{
    argument_diagnostics, arguments, override_diagnostics, overrides, parse_arguments,
    parse_punctuated_unique, OverrideMap,
};
use crate::fields::{body_diagnostics, body_of, derive_fields, member_at, Body, BodyView};
use crate::model::{
    optional_view, views, Annotation, AnnotationView, Declaration, DeclarationKind,
    DeclarationKindView, DeclarationView, FieldList, FieldListView, Location, Variant,
    VariantView,
};

verus! {

/// What a constructor builds: the type itself, or one variant of it.
#[derive(Clone, Debug, PartialEq, Eq)]
pub struct TargetPath {
    pub name: String,
    pub variant: Option<String>,
}

pub struct TargetPathView {
    pub name: Seq<char>,
    pub variant: Option<Seq<char>>,
}

impl View for TargetPath {
    type V = TargetPathView;

    open spec fn view(&self) -> TargetPathView {
        TargetPathView { name: self.name@, variant: optional_view(self.variant) }
    }
}

/// The expression that makes the default value of a type.
#[derive(Clone, Debug, PartialEq, Eq)]
pub enum ConstructorExpression {
    /// Builds the target from the values of its fields.
    Construct { target: TargetPath, body: Body },
    /// Stands where a tagged union has no default variant: it fails whenever it is evaluated.
    Unreachable,
}

pub enum ConstructorExpressionView {
    Construct { target: TargetPathView, body: BodyView },
    Unreachable,
}

impl View for ConstructorExpression {
    type V = ConstructorExpressionView;

    open spec fn view(&self) -> ConstructorExpressionView {
        match *self {
            ConstructorExpression::Construct { target, body } => {
                ConstructorExpressionView::Construct { target: target@, body: body@ }
            },
            ConstructorExpression::Unreachable => ConstructorExpressionView::Unreachable,
        }
    }
}

impl ConstructorExpressionView {
    /// The constructor as it stands inside the implementation for its type, where the type
    /// goes by the name `Self`.
    pub open spec fn text(self) -> Seq<char> {
        match self {
            ConstructorExpressionView::Construct { target, body } => match target.variant {
                Some(variant) => "Self::"@ + variant + body.text(),
                None => "Self"@ + body.text(),
            },
            ConstructorExpressionView::Unreachable => "panic!()"@,
        }
    }
}

impl ConstructorExpression {
    /// The constructor as it stands inside the implementation for its type, where the type
    /// goes by the name `Self`.
    pub fn to_text(&self) -> (text: String)
        ensures
            text@ == self@.text(),
    {
        match self {
            ConstructorExpression::Construct { target, body } => {
                let mut text = match &target.variant {
                    Some(variant) => {
                        let mut path = "Self::".to_owned();
                        path.append(variant.as_str());
                        path
                    },
                    None => "Self".to_owned(),
                };
                let fields = body.to_text();
                text.append(fields.as_str());
                text
            },
            ConstructorExpression::Unreachable => "panic!()".to_owned(),
        }
    }
}

/// The implementation of the default-construction operation for one type: the type's name, its
/// generic parameters as they were declared, and the constructor.
#[derive(Clone, Debug, PartialEq, Eq)]
pub struct Implementation {
    pub name: String,
    pub generics: String,
    pub constructor: ConstructorExpression,
}

pub struct ImplementationView {
    pub name: Seq<char>,
    pub generics: Seq<char>,
    pub constructor: ConstructorExpressionView,
}

impl View for Implementation {
    type V = ImplementationView;

    open spec fn view(&self) -> ImplementationView {
        ImplementationView {
            name: self.name@,
            generics: self.generics@,
            constructor: self.constructor@,
        }
    }
}

/// What the synthesizer makes of one declaration. A declaration of an unsupported kind gets no
/// implementation.
#[derive(Clone, Debug, PartialEq, Eq)]
pub struct Derived {
    pub implementation: Option<Implementation>,
    pub diagnostics: Vec<Diagnostic>,
}

pub struct DerivedView {
    pub implementation: Option<ImplementationView>,
    pub diagnostics: Seq<DiagnosticView>,
}

impl View for Derived {
    type V = DerivedView;

    open spec fn view(&self) -> DerivedView {
        DerivedView {
            implementation: optional_view(self.implementation),
            diagnostics: views(self.diagnostics@),
        }
    }
}

/// The identities of the fields of a list, in declaration order.
pub open spec fn field_names(fields: FieldListView) -> Seq<Seq<char>> {
    Seq::new(fields.len(), |index: int| fields.member(index).identity)
}

/// The override map that the annotation of a record or of a variant gives over the identities
/// `names`, where its arguments can be read.
pub open spec fn top_overrides(attr: AnnotationView, names: Seq<Seq<char>>) -> Option<
    Map<Seq<char>, Seq<char>>,
> {
    match arguments(attr) {
        Some(assignments) => Some(overrides(assignments, names)),
        None => None,
    }
}

/// What is reported of the annotation of a record or of a variant: of its arguments first, then
/// of the assignments that they hold.
pub open spec fn top_diagnostics(
    attr: AnnotationView,
    names: Seq<Seq<char>>,
    require_list: bool,
) -> Seq<DiagnosticView> {
    argument_diagnostics(attr, require_list) + (match arguments(attr) {
        Some(assignments) => override_diagnostics(assignments, names, attr.location),
        None => Seq::empty(),
    })
}

/// The override map of a record with the declaration-level annotation `top`.
pub open spec fn record_overrides(top: Option<AnnotationView>, fields: FieldListView) -> Option<
    Map<Seq<char>, Seq<char>>,
> {
    match top {
        Some(attr) => top_overrides(attr, field_names(fields)),
        None => None,
    }
}

/// The constructor of a record.
pub open spec fn record_constructor(
    name: Seq<char>,
    top: Option<AnnotationView>,
    fields: FieldListView,
) -> ConstructorExpressionView {
    ConstructorExpressionView::Construct {
        target: TargetPathView { name, variant: None },
        body: body_of(record_overrides(top, fields), fields),
    }
}

/// What is reported of a record: of its annotation first, then of its fields.
pub open spec fn record_diagnostics(top: Option<AnnotationView>, fields: FieldListView) -> Seq<
    DiagnosticView,
> {
    (match top {
        Some(attr) => top_diagnostics(attr, field_names(fields), true),
        None => Seq::empty(),
    }) + body_diagnostics(record_overrides(top, fields), fields)
}

/// The annotation that marks a variant as the default, if it is marked.
pub open spec fn marker(variant: VariantView) -> Option<AnnotationView> {
    first_match(variant.annotations, DEFAULT_IDENT@)
}

/// The position of the first marked variant, if any is marked.
pub open spec fn selected(variants: Seq<VariantView>) -> Option<int>
    decreases variants.len(),
{
    if variants.len() == 0 {
        None
    } else {
        match selected(variants.drop_last()) {
            Some(first) => Some(first),
            None => if marker(variants.last()) is Some {
                Some(variants.len() - 1)
            } else {
                None
            },
        }
    }
}

/// The override map of a variant marked by `attr`.
pub open spec fn variant_overrides(attr: AnnotationView, variant: VariantView) -> Option<
    Map<Seq<char>, Seq<char>>,
> {
    top_overrides(attr, field_names(variant.fields))
}

/// The constructor of a variant marked by `attr`.
pub open spec fn variant_constructor(
    name: Seq<char>,
    attr: AnnotationView,
    variant: VariantView,
) -> ConstructorExpressionView {
    ConstructorExpressionView::Construct {
        target: TargetPathView { name, variant: Some(variant.name) },
        body: body_of(variant_overrides(attr, variant), variant.fields),
    }
}

/// What is reported of the variant at `index`. An unmarked variant is passed over. Of a marked
/// one the repeated markers are reported; then, where an earlier variant is the default
/// already, that conflict and nothing else; otherwise what is wrong with the marker's
/// arguments and with the variant's fields.
pub open spec fn variant_diagnostics(variants: Seq<VariantView>, index: int) -> Seq<DiagnosticView>
    recommends
        0 <= index < variants.len(),
{
    let variant = variants[index];
    match marker(variant) {
        None => Seq::empty(),
        Some(attr) => duplicate_diagnostics(variant.annotations, DEFAULT_IDENT@) + (match selected(
            variants.take(index),
        ) {
            Some(first) => seq![
                DiagnosticView {
                    location: attr.location,
                    kind: DiagnosticKindView::MultipleDefaultVariants(variants[first].name),
                },
            ],
            None => top_diagnostics(attr, field_names(variant.fields), false) + body_diagnostics(
                variant_overrides(attr, variant),
                variant.fields,
            ),
        }),
    }
}

/// What is reported of the variants, in declaration order.
pub open spec fn variants_diagnostics(variants: Seq<VariantView>) -> Seq<DiagnosticView>
    decreases variants.len(),
{
    if variants.len() == 0 {
        Seq::empty()
    } else {
        variants_diagnostics(variants.drop_last()) + variant_diagnostics(
            variants,
            variants.len() - 1,
        )
    }
}

/// The constructor of a tagged union: that of its first marked variant, or the one that fails.
pub open spec fn enum_constructor(name: Seq<char>, variants: Seq<VariantView>) -> ConstructorExpressionView {
    match selected(variants) {
        Some(first) => variant_constructor(name, marker(variants[first])->0, variants[first]),
        None => ConstructorExpressionView::Unreachable,
    }
}

/// What is reported where the declaration of a tagged union itself is annotated.
pub open spec fn top_rejection(top: Option<AnnotationView>) -> Seq<DiagnosticView> {
    match top {
        Some(attr) => seq![
            DiagnosticView {
                location: attr.location,
                kind: DiagnosticKindView::TopLevelOnTaggedUnion,
            },
        ],
        None => Seq::empty(),
    }
}

/// What is reported where no variant is marked.
pub open spec fn missing_default(variants: Seq<VariantView>, location: Location) -> Seq<
    DiagnosticView,
> {
    if selected(variants) is None {
        seq![DiagnosticView { location, kind: DiagnosticKindView::NoDefaultVariant }]
    } else {
        Seq::empty()
    }
}

/// What is reported of a tagged union declared at `location`.
pub open spec fn enum_diagnostics(
    top: Option<AnnotationView>,
    variants: Seq<VariantView>,
    location: Location,
) -> Seq<DiagnosticView> {
    top_rejection(top) + variants_diagnostics(variants) + missing_default(variants, location)
}

/// What the synthesizer makes of a declaration.
pub open spec fn derived(declaration: DeclarationView) -> DerivedView {
    let top = first_match(declaration.annotations, DEFAULT_IDENT@);
    let repeated = duplicate_diagnostics(declaration.annotations, DEFAULT_IDENT@);
    match declaration.kind {
        DeclarationKindView::Record(fields) => DerivedView {
            implementation: Some(
                ImplementationView {
                    name: declaration.name,
                    generics: declaration.generics,
                    constructor: record_constructor(declaration.name, top, fields),
                },
            ),
            diagnostics: repeated + record_diagnostics(top, fields),
        },
        DeclarationKindView::TaggedUnion(variants) => DerivedView {
            implementation: Some(
                ImplementationView {
                    name: declaration.name,
                    generics: declaration.generics,
                    constructor: enum_constructor(declaration.name, variants),
                },
            ),
            diagnostics: repeated + enum_diagnostics(top, variants, declaration.location),
        },
        DeclarationKindView::Unsupported => DerivedView {
            implementation: None,
            diagnostics: seq![
                DiagnosticView {
                    location: declaration.location,
                    kind: DiagnosticKindView::UnsupportedDeclarationKind,
                },
            ],
        },
    }
}

/// The first marked variant is marked, lies within the list, and no variant before it is
/// marked.
pub proof fn lemma_selected(variants: Seq<VariantView>)
    ensures
        match selected(variants) {
            Some(first) => 0 <= first < variants.len() && marker(variants[first]) is Some
                && forall|j: int| 0 <= j < first ==> marker(#[trigger] variants[j]) is None,
            None => forall|j: int| 0 <= j < variants.len() ==> marker(#[trigger] variants[j]) is None,
        },
    decreases variants.len(),
{
    if variants.len() > 0 {
        lemma_selected(variants.drop_last());
        assert(forall|j: int|
            0 <= j < variants.len() - 1 ==> variants.drop_last()[j] == #[trigger] variants[j]);
    }
}

/// Reads the annotation of a record or of a variant into the override map over `field_names`.
/// With `require_list` a bare annotation is reported; without, it stands for no map.
pub fn parse_top_attribute(
    attr: &Annotation,
    field_names: &[String],
    require_list: bool,
    diagnostics: &mut Vec<Diagnostic>,
) -> (map: Option<OverrideMap>)
    ensures
        optional_view(map) == top_overrides(attr@, views(field_names@)),
        views(final(diagnostics)@) == views(old(diagnostics)@) + top_diagnostics(
            attr@,
            views(field_names@),
            require_list,
        ),
{
    let ghost expected = views(diagnostics@) + top_diagnostics(
        attr@,
        views(field_names@),
        require_list,
    );
    match parse_arguments(attr, require_list, diagnostics) {
        Some(punctuated) => {
            let map = parse_punctuated_unique(punctuated, field_names, attr.location, diagnostics);
            assert(views(diagnostics@) =~= expected);
            Some(map)
        },
        None => {
            assert(views(diagnostics@) =~= expected);
            None
        },
    }
}

/// The identities of the fields of a list, in declaration order: the names of the fields of a
/// named list, the positions, counted from zero, of the fields of a positional one.
pub fn get_fields_name(fields: &FieldList) -> (names: Vec<String>)
    ensures
        views(names@) == field_names(fields@),
{
    let count = fields.len();
    let mut names: Vec<String> = Vec::new();
    let mut i: usize = 0;
    while i < count
        invariant
            count == fields@.len(),
            i <= count,
            names.len() == i,
            forall|j: int| 0 <= j < i ==> (#[trigger] names@[j])@ == fields@.member(j).identity,
        decreases count - i,
    {
        let (_, identity, _) = member_at(fields, i);
        names.push(identity);
        i += 1;
    }
    assert(views(names@) =~= field_names(fields@));
    names
}

/// Builds the constructor of the record `name` with the fields `data`. `top_attribute` is the
/// record's own default annotation, where it has one.
pub fn derive_struct(
    top_attribute: Option<&Annotation>,
    name: &str,
    data: &FieldList,
    diagnostics: &mut Vec<Diagnostic>,
) -> (constructor: ConstructorExpression)
    ensures
        constructor@ == record_constructor(name@, optional_view(top_attribute), data@),
        views(final(diagnostics)@) == views(old(diagnostics)@) + record_diagnostics(
            optional_view(top_attribute),
            data@,
        ),
{
    let field_names = get_fields_name(data);
    let top = match top_attribute {
        Some(attr) => parse_top_attribute(attr, field_names.as_slice(), true, diagnostics),
        None => {
            assert(views(diagnostics@) + Seq::<DiagnosticView>::empty() =~= views(diagnostics@));
            None
        },
    };
    let body = derive_fields(top.as_ref(), data, diagnostics);
    assert(views(diagnostics@) =~= views(old(diagnostics)@) + record_diagnostics(
        optional_view(top_attribute),
        data@,
    ));
    ConstructorExpression::Construct {
        target: TargetPath { name: name.to_owned(), variant: None },
        body,
    }
}

/// Builds the constructor of the tagged union `name`, declared at `location`, with the variants
/// `data`: that of the first variant that carries the default marker. A marker on the
/// declaration itself, and each marked variant after the first, is reported; where no variant
/// is marked, that is reported and the constructor is the one that fails.
pub fn default_enum(
    top_attribute: Option<&Annotation>,
    name: &str,
    data: &Vec<Variant>,
    location: Location,
    diagnostics: &mut Vec<Diagnostic>,
) -> (constructor: ConstructorExpression)
    ensures
        constructor@ == enum_constructor(name@, views(data@)),
        views(final(diagnostics)@) == views(old(diagnostics)@) + enum_diagnostics(
            optional_view(top_attribute),
            views(data@),
            location,
        ),
{
    let ghost all = views(data@);
    let ghost top = optional_view(top_attribute);
    match top_attribute {
        Some(attr) => {
            report(diagnostics, attr.location, DiagnosticKind::TopLevelOnTaggedUnion);
        },
        None => {},
    }
    assert(views(diagnostics@) =~= views(old(diagnostics)@) + top_rejection(top));
    let ghost start = views(diagnostics@);

    let mut default_variant: Option<(String, ConstructorExpression)> = None;
    let mut i: usize = 0;
    assert(all.take(0) =~= Seq::<VariantView>::empty());
    assert(start + Seq::<DiagnosticView>::empty() =~= start);
    while i < data.len()
        invariant
            all == views(data@),
            i <= data.len(),
            match default_variant {
                Some((ident, constructor)) => selected(all.take(i as int)) matches Some(first)
                    && 0 <= first < i && ident@ == all[first].name && marker(all[first]) is Some
                    && constructor@ == variant_constructor(name@, marker(all[first])->0, all[first]),
                None => selected(all.take(i as int)) is None,
            },
            views(diagnostics@) == start + variants_diagnostics(all.take(i as int)),
        decreases data.len() - i,
    {
        let ghost before = views(diagnostics@);
        let ghost prefix = all.take(i as int + 1);
        proof {
            assert(prefix.drop_last() =~= all.take(i as int));
            assert(prefix.take(i as int) =~= all.take(i as int));
            assert(prefix.last() == all[i as int]);
            lemma_selected(all.take(i as int));
        }
        let variant = &data[i];
        let found = find_attribute_unique(
            variant.annotations.as_slice(),
            DEFAULT_IDENT,
            diagnostics,
        );
        match found {
            None => {},
            Some(attr) => {
                match &default_variant {
                    Some((ident, _)) => {
                        report(
                            diagnostics,
                            attr.location,
                            DiagnosticKind::MultipleDefaultVariants(ident.clone()),
                        );
                    },
                    None => {
                        let field_names = get_fields_name(&variant.fields);
                        let top_attribute = parse_top_attribute(
                            attr,
                            field_names.as_slice(),
                            false,
                            diagnostics,
                        );
                        let body = derive_fields(
                            top_attribute.as_ref(),
                            &variant.fields,
                            diagnostics,
                        );
                        let constructor = ConstructorExpression::Construct {
                            target: TargetPath {
                                name: name.to_owned(),
                                variant: Some(variant.name.clone()),
                            },
                            body,
                        };
                        default_variant = Some((variant.name.clone(), constructor));
                    },
                }
            },
        }
        assert(views(diagnostics@) =~= before + variant_diagnostics(prefix, i as int));
        assert(views(diagnostics@) =~= start + variants_diagnostics(prefix));
        i += 1;
    }
    assert(all.take(i as int) =~= all);
    match default_variant {
        Some((_, constructor)) => {
            assert(views(diagnostics@) =~= views(old(diagnostics)@) + enum_diagnostics(
                top,
                all,
                location,
            ));
            constructor
        },
        None => {
            report(diagnostics, location, DiagnosticKind::NoDefaultVariant);
            assert(views(diagnostics@) =~= views(old(diagnostics)@) + enum_diagnostics(
                top,
                all,
                location,
            ));
            ConstructorExpression::Unreachable
        },
    }
}

/// Synthesizes the default constructor of a declaration, with every diagnostic that its
/// annotations give rise to. A record and a tagged union always get an implementation, whatever
/// is reported; a declaration of another kind gets none, and the one diagnostic that says so.
pub fn derive(input: Declaration) -> (output: Derived)
    ensures
        output@ == derived(input@),
{
    let mut diagnostics: Vec<Diagnostic> = Vec::new();
    assert(views(diagnostics@) =~= Seq::<DiagnosticView>::empty());
    let top_attribute = find_attribute_unique(
        input.annotations.as_slice(),
        DEFAULT_IDENT,
        &mut diagnostics,
    );
    let ghost repeated = duplicate_diagnostics(input@.annotations, DEFAULT_IDENT@);
    assert(views(diagnostics@) =~= repeated);
    let constructor = match &input.kind {
        DeclarationKind::Record(data) => derive_struct(
            top_attribute,
            input.name.as_str(),
            data,
            &mut diagnostics,
        ),
        DeclarationKind::TaggedUnion(data) => default_enum(
            top_attribute,
            input.name.as_str(),
            data,
            input.location,
            &mut diagnostics,
        ),
        DeclarationKind::Unsupported => {
            let mut only: Vec<Diagnostic> = Vec::new();
            assert(views(only@) =~= Seq::<DiagnosticView>::empty());
            report(&mut only, input.location, DiagnosticKind::UnsupportedDeclarationKind);
            assert(views(only@) =~= derived(input@).diagnostics);
            return Derived { implementation: None, diagnostics: only };
        },
    };
    Derived {
        implementation: Some(
            Implementation {
                name: input.name.clone(),
                generics: input.generics.clone(),
                constructor,
            },
        ),
        diagnostics: diagnostics,
    }
}

} // verus!
