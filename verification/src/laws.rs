//! What holds of the synthesizer on every declaration, proved from the definitions that the
//! contracts of its functions use.

use vstd::prelude::*;
use crate::attrs::{duplicate_diagnostics, first_match, DEFAULT_IDENT};
use crate::derive::{
    derived, enum_constructor, enum_diagnostics, field_names, lemma_selected, marker, selected,
    top_diagnostics, top_rejection, variant_constructor, variant_diagnostics, variant_overrides,
    variants_diagnostics, ConstructorExpressionView, DerivedView, ImplementationView,
    TargetPathView,
};
use crate::diagnostics::{DiagnosticKindView, DiagnosticView};
use crate::field_assign::{
    argument_diagnostics, arguments, assignment_diagnostics, entry_location,
    override_diagnostics, overrides, FieldAssignView,
};
use crate::fields::{
    body_diagnostics, default_value, default_values, fallback_expression, field_diagnostics,
    field_level_value, fields_diagnostics, shape_of, source_diagnostics, top_level_value,
    BodyView, DefaultValueView,
};
use crate::model::{
    AnnotationView, DeclarationKindView, DeclarationView, FieldListView, Location, MemberView,
    VariantView,
};
use crate::text::decimal_text;

verus! {

/// Whether none of the annotations is a default annotation.
pub open spec fn unannotated(annotations: Seq<AnnotationView>) -> bool {
    first_match(annotations, DEFAULT_IDENT@) is None
}

/// Whether no field of the list carries a default annotation.
pub open spec fn fields_unannotated(members: Seq<MemberView>) -> bool {
    forall|i: int| 0 <= i < members.len() ==> unannotated(#[trigger] members[i].annotations)
}

/// The values of a field list of which every field takes the default of its declared type.
pub open spec fn fallback_values(members: Seq<MemberView>) -> Seq<DefaultValueView> {
    Seq::new(
        members.len(),
        |i: int|
            DefaultValueView { ident: members[i].label, value: fallback_expression(members[i].ty) },
    )
}

/// The fields of a positional list are identified by their positions, counted from zero, and
/// have no label; those of a named list are identified and labelled by their names.
pub proof fn lemma_identity_follows_the_form(fields: FieldListView, index: int)
    requires
        0 <= index < fields.len(),
    ensures
        fields.members().len() == fields.len(),
        field_names(fields).len() == fields.len(),
        field_names(fields)[index] == fields.members()[index].identity,
        fields matches FieldListView::Positional(_) ==> fields.members()[index].identity
            == decimal_text(index as nat) && fields.members()[index].label is None,
        fields matches FieldListView::Named(list) ==> fields.members()[index].identity
            == list[index].name && fields.members()[index].label == Some(list[index].name),
{
}

/// Annotations without a default annotation give neither a first match nor a repetition to
/// report.
pub proof fn lemma_unannotated(annotations: Seq<AnnotationView>)
    requires
        unannotated(annotations),
    ensures
        duplicate_diagnostics(annotations, DEFAULT_IDENT@) == Seq::<DiagnosticView>::empty(),
{
    assert(duplicate_diagnostics(annotations, DEFAULT_IDENT@) =~= Seq::<DiagnosticView>::empty());
}

/// Fields that have a value neither from an annotation of their own nor from the enclosing one
/// take, each at its place, the default of their declared types.
pub proof fn lemma_fallback_sourced_values(
    top: Option<Map<Seq<char>, Seq<char>>>,
    members: Seq<MemberView>,
)
    requires
        forall|i: int|
            0 <= i < members.len() ==> field_level_value(#[trigger] members[i]) is None
                && top_level_value(top, members[i].identity) is None,
    ensures
        default_values(top, members) == fallback_values(members),
{
    assert(default_values(top, members) =~= fallback_values(members));
}

/// Of fields without default annotations nothing is reported.
pub proof fn lemma_unannotated_fields_are_silent(
    top: Option<Map<Seq<char>, Seq<char>>>,
    members: Seq<MemberView>,
)
    requires
        fields_unannotated(members),
    ensures
        fields_diagnostics(top, members) == Seq::<DiagnosticView>::empty(),
    decreases members.len(),
{
    if members.len() > 0 {
        assert(fields_unannotated(members.drop_last())) by {
            assert(forall|i: int|
                0 <= i < members.len() - 1 ==> members.drop_last()[i] == #[trigger] members[i]);
            assert(forall|i: int|
                0 <= i < members.drop_last().len() ==> unannotated(
                    #[trigger] members.drop_last()[i].annotations,
                ));
        }
        lemma_unannotated_fields_are_silent(top, members.drop_last());
        assert(unannotated(members[members.len() - 1].annotations));
        lemma_unannotated(members.last().annotations);
        assert(fields_diagnostics(top, members) =~= Seq::<DiagnosticView>::empty());
    }
}

/// A record that carries no default annotation, neither itself nor on a field, gets the
/// constructor that gives every field, in declaration order, the default of its declared type;
/// and nothing is reported.
pub proof fn lemma_unannotated_record_falls_back(declaration: DeclarationView, fields: FieldListView)
    requires
        declaration.kind == DeclarationKindView::Record(fields),
        unannotated(declaration.annotations),
        fields_unannotated(fields.members()),
    ensures
        derived(declaration) == (DerivedView {
            implementation: Some(
                ImplementationView {
                    name: declaration.name,
                    generics: declaration.generics,
                    constructor: ConstructorExpressionView::Construct {
                        target: TargetPathView { name: declaration.name, variant: None },
                        body: BodyView {
                            shape: shape_of(fields),
                            values: fallback_values(fields.members()),
                        },
                    },
                },
            ),
            diagnostics: Seq::empty(),
        }),
{
    let list = fields.members();
    lemma_unannotated(declaration.annotations);
    lemma_unannotated_fields_are_silent(None, list);
    assert forall|i: int| 0 <= i < list.len() implies field_level_value(#[trigger] list[i])
        is None && top_level_value(None, list[i].identity) is None by {
        assert(unannotated(list[i].annotations));
    }
    lemma_fallback_sourced_values(None, list);
    assert(derived(declaration).diagnostics =~= Seq::<DiagnosticView>::empty());
}

/// A field with a value from its own annotation has that value, whatever the enclosing
/// annotation assigns. What the enclosing annotation changes is the report: one diagnostic more,
/// at the field's annotation, where it assigns a value to this field too.
pub proof fn lemma_field_level_value_wins(
    top: Option<Map<Seq<char>, Seq<char>>>,
    member: MemberView,
    value: Seq<char>,
)
    requires
        field_level_value(member) == Some(value),
    ensures
        default_value(top, member).value == value,
        default_value(top, member) == default_value(None, member),
        field_diagnostics(top, member) == field_diagnostics(None, member) + conflict_of(
            top,
            member,
        ),
{
    assert(source_diagnostics(None, member) =~= Seq::<DiagnosticView>::empty());
    assert(field_diagnostics(top, member) =~= field_diagnostics(None, member) + conflict_of(
        top,
        member,
    ));
}

/// The conflict between the value of a field's own annotation and a value that the enclosing
/// annotation assigns to the field, if it assigns one: reported at the field's annotation.
pub open spec fn conflict_of(top: Option<Map<Seq<char>, Seq<char>>>, member: MemberView) -> Seq<
    DiagnosticView,
> {
    if top_level_value(top, member.identity) is Some {
        seq![
            DiagnosticView {
                location: first_match(member.annotations, DEFAULT_IDENT@)->0.location,
                kind: DiagnosticKindView::ConflictingDefaultSource,
            },
        ]
    } else {
        Seq::empty()
    }
}

/// Where every field has a value from its own annotation, the values are the same with and
/// without an enclosing annotation, in the same order; and the report with it is the report
/// without it, with the conflict of each field that the enclosing annotation assigns to put
/// after what is reported of that field.
pub proof fn lemma_only_the_report_differs(
    top: Option<Map<Seq<char>, Seq<char>>>,
    members: Seq<MemberView>,
)
    requires
        forall|i: int| 0 <= i < members.len() ==> field_level_value(#[trigger] members[i]) is Some,
    ensures
        default_values(top, members) == default_values(None, members),
        fields_diagnostics(top, members) == with_conflicts(top, members),
    decreases members.len(),
{
    assert forall|i: int| 0 <= i < members.len() implies default_value(top, #[trigger] members[i])
        == default_value(None, members[i]) by {
        lemma_field_level_value_wins(top, members[i], field_level_value(members[i])->0);
    }
    assert(default_values(top, members) =~= default_values(None, members));
    if members.len() > 0 {
        assert forall|i: int| 0 <= i < members.drop_last().len() implies field_level_value(
            #[trigger] members.drop_last()[i],
        ) is Some by {
            assert(members.drop_last()[i] == members[i]);
        }
        lemma_only_the_report_differs(top, members.drop_last());
        lemma_field_level_value_wins(
            top,
            members.last(),
            field_level_value(members[members.len() - 1])->0,
        );
    }
}

/// The report on fields without an enclosing annotation, with the conflict of each field put
/// after what is reported of that field.
pub open spec fn with_conflicts(top: Option<Map<Seq<char>, Seq<char>>>, members: Seq<MemberView>) -> Seq<
    DiagnosticView,
>
    decreases members.len(),
{
    if members.len() == 0 {
        Seq::empty()
    } else {
        with_conflicts(top, members.drop_last()) + field_diagnostics(None, members.last())
            + conflict_of(top, members.last())
    }
}

/// An override map holds no key that is not the identity of a field.
pub proof fn lemma_overrides_hold_known_fields(
    assignments: Seq<FieldAssignView>,
    names: Seq<Seq<char>>,
)
    ensures
        forall|key: Seq<char>|
            overrides(assignments, names).dom().contains(key) ==> names.contains(key),
    decreases assignments.len(),
{
    if assignments.len() > 0 {
        let earlier = overrides(assignments.drop_last(), names);
        lemma_overrides_hold_known_fields(assignments.drop_last(), names);
        assert forall|key: Seq<char>|
            overrides(assignments, names).dom().contains(key) implies names.contains(key) by {
            if key != assignments.last().ident.text() {
                assert(earlier.dom().contains(key));
            }
        }
    }
}

/// A known field has an expression in the override map exactly if an assignment names it.
pub proof fn lemma_overrides_hold_assigned_fields(
    assignments: Seq<FieldAssignView>,
    names: Seq<Seq<char>>,
    key: Seq<char>,
)
    requires
        names.contains(key),
    ensures
        overrides(assignments, names).dom().contains(key) <==> exists|i: int|
            0 <= i < assignments.len() && (#[trigger] assignments[i]).ident.text() == key,
    decreases assignments.len(),
{
    if assignments.len() > 0 {
        let earlier = assignments.drop_last();
        lemma_overrides_hold_assigned_fields(earlier, names, key);
        if overrides(assignments, names).dom().contains(key) {
            if overrides(earlier, names).dom().contains(key) {
                let i = choose|i: int|
                    0 <= i < earlier.len() && (#[trigger] earlier[i]).ident.text() == key;
                assert(assignments[i].ident.text() == key);
            } else {
                assert(assignments[assignments.len() - 1].ident.text() == key);
            }
        }
        if exists|i: int|
            0 <= i < assignments.len() && (#[trigger] assignments[i]).ident.text() == key {
            let i = choose|i: int|
                0 <= i < assignments.len() && (#[trigger] assignments[i]).ident.text() == key;
            if i < assignments.len() - 1 {
                assert(earlier[i].ident.text() == key);
            }
        }
    }
}

/// Of the assignments to one known field the first counts: its expression is the one that the
/// override map holds for the field.
pub proof fn lemma_first_assignment_counts(
    assignments: Seq<FieldAssignView>,
    names: Seq<Seq<char>>,
    first: int,
)
    requires
        0 <= first < assignments.len(),
        names.contains(assignments[first].ident.text()),
        forall|j: int|
            0 <= j < first ==> (#[trigger] assignments[j]).ident.text()
                != assignments[first].ident.text(),
    ensures
        overrides(assignments, names).dom().contains(assignments[first].ident.text()),
        overrides(assignments, names)[assignments[first].ident.text()] == assignments[first].value,
    decreases assignments.len(),
{
    let key = assignments[first].ident.text();
    let earlier = assignments.drop_last();
    if first == assignments.len() - 1 {
        lemma_overrides_hold_assigned_fields(earlier, names, key);
        if overrides(earlier, names).dom().contains(key) {
            let i = choose|i: int|
                0 <= i < earlier.len() && (#[trigger] earlier[i]).ident.text() == key;
            assert(assignments[i].ident.text() == key);
        }
    } else {
        assert(earlier[first] == assignments[first]);
        assert forall|j: int| 0 <= j < first implies (#[trigger] earlier[j]).ident.text()
            != key by {
            assert(earlier[j] == assignments[j]);
        }
        lemma_first_assignment_counts(earlier, names, first);
    }
}

/// An assignment to an unknown field, coming after any assignments, leaves the map as it was
/// and adds exactly one diagnostic: that its field is unknown, at the assignment.
pub proof fn lemma_unknown_field_is_skipped(
    assignments: Seq<FieldAssignView>,
    names: Seq<Seq<char>>,
    location: Location,
    assignment: FieldAssignView,
)
    requires
        !names.contains(assignment.ident.text()),
    ensures
        overrides(assignments.push(assignment), names) == overrides(assignments, names),
        !overrides(assignments.push(assignment), names).contains_key(assignment.ident.text()),
        override_diagnostics(assignments.push(assignment), names, location)
            == override_diagnostics(assignments, names, location).push(
            DiagnosticView {
                location: entry_location(location, assignments.len() as int),
                kind: DiagnosticKindView::UnknownField(assignment.ident.text()),
            },
        ),
{
    let extended = assignments.push(assignment);
    assert(extended.drop_last() =~= assignments);
    assert(extended.last() == assignment);
    lemma_overrides_hold_known_fields(assignments, names);
    assert(override_diagnostics(extended, names, location) =~= override_diagnostics(
        assignments,
        names,
        location,
    ).push(
        DiagnosticView {
            location: entry_location(location, assignments.len() as int),
            kind: DiagnosticKindView::UnknownField(assignment.ident.text()),
        },
    ));
}

/// The first marked variant of a prefix that reaches past the first marked variant of the whole
/// list is that variant.
pub proof fn lemma_selected_in_prefix(variants: Seq<VariantView>, first: int, n: int)
    requires
        0 <= first < n <= variants.len(),
        marker(variants[first]) is Some,
        forall|j: int| 0 <= j < first ==> marker(#[trigger] variants[j]) is None,
    ensures
        selected(variants.take(n)) == Some(first),
{
    let prefix = variants.take(n);
    lemma_selected(prefix);
    assert(prefix[first] == variants[first]);
    match selected(prefix) {
        Some(found) => {
            assert(prefix[found] == variants[found]);
            if found < first {
                assert(marker(variants[found]) is None);
            }
        },
        None => {},
    }
}

/// Where no variant of a prefix is marked, none is selected in it and nothing is reported of
/// it.
pub proof fn lemma_unmarked_prefix(variants: Seq<VariantView>, n: int)
    requires
        0 <= n <= variants.len(),
        forall|j: int| 0 <= j < n ==> marker(#[trigger] variants[j]) is None,
    ensures
        selected(variants.take(n)) is None,
        variants_diagnostics(variants.take(n)) == Seq::<DiagnosticView>::empty(),
    decreases n,
{
    let prefix = variants.take(n);
    if n > 0 {
        lemma_unmarked_prefix(variants, n - 1);
        assert(prefix.drop_last() =~= variants.take(n - 1));
        assert(prefix.last() == variants[n - 1]);
        assert(variants_diagnostics(prefix) =~= Seq::<DiagnosticView>::empty());
    }
}

/// A tagged union without a marked variant gets the constructor that fails, and the one
/// diagnostic that says so, after what is reported of an annotation on the declaration itself.
pub proof fn lemma_no_marked_variant(
    name: Seq<char>,
    top: Option<AnnotationView>,
    variants: Seq<VariantView>,
    location: Location,
)
    requires
        forall|j: int| 0 <= j < variants.len() ==> marker(#[trigger] variants[j]) is None,
    ensures
        enum_constructor(name, variants) == ConstructorExpressionView::Unreachable,
        enum_diagnostics(top, variants, location) == top_rejection(top).push(
            DiagnosticView { location, kind: DiagnosticKindView::NoDefaultVariant },
        ),
{
    lemma_unmarked_prefix(variants, variants.len() as int);
    assert(variants.take(variants.len() as int) =~= variants);
    assert(enum_diagnostics(top, variants, location) =~= top_rejection(top).push(
        DiagnosticView { location, kind: DiagnosticKindView::NoDefaultVariant },
    ));
}

/// What is reported of the variant at `index` depends on the variants up to it alone.
pub proof fn lemma_variant_diagnostics_of_prefix(variants: Seq<VariantView>, index: int, n: int)
    requires
        0 <= index < n <= variants.len(),
    ensures
        variant_diagnostics(variants.take(n), index) == variant_diagnostics(variants, index),
{
    let prefix = variants.take(n);
    assert(prefix[index] == variants[index]);
    assert(prefix.take(index) =~= variants.take(index));
    lemma_selected(variants.take(index));
    match selected(variants.take(index)) {
        Some(first) => {
            assert(variants.take(index)[first] == variants[first]);
            assert(prefix[first] == variants[first]);
        },
        None => {},
    }
}

/// What is reported of the variants is what is reported of each in turn: the report on the
/// first `n + 1` variants is that on the first `n`, followed by that on the variant at `n`.
pub proof fn lemma_variants_reported_in_turn(variants: Seq<VariantView>, n: int)
    requires
        0 <= n < variants.len(),
    ensures
        variants_diagnostics(variants.take(n + 1)) == variants_diagnostics(variants.take(n))
            + variant_diagnostics(variants, n),
{
    assert(variants.take(n + 1).drop_last() =~= variants.take(n));
    lemma_variant_diagnostics_of_prefix(variants, n, n + 1);
}

/// Where one variant alone is marked, what is reported of the variants is what is reported of
/// that one.
pub proof fn lemma_only_marked_variant(variants: Seq<VariantView>, only: int, n: int)
    requires
        0 <= only < n <= variants.len(),
        forall|j: int| 0 <= j < variants.len() && j != only ==> marker(#[trigger] variants[j]) is None,
    ensures
        variants_diagnostics(variants.take(n)) == variant_diagnostics(variants, only),
    decreases n,
{
    let prefix = variants.take(n);
    assert(prefix.drop_last() =~= variants.take(n - 1));
    lemma_variant_diagnostics_of_prefix(variants, n - 1, n);
    if n == only + 1 {
        lemma_unmarked_prefix(variants, only);
        assert(variants_diagnostics(prefix) =~= variant_diagnostics(variants, only));
    } else {
        lemma_only_marked_variant(variants, only, n - 1);
        assert(marker(variants[n - 1]) is None);
        assert(variants_diagnostics(prefix) =~= variant_diagnostics(variants, only));
    }
}

/// A tagged union of which exactly one variant is marked, by a bare annotation, and whose
/// marked variant has no default annotation on a field, gets the constructor of that variant
/// with every field at the default of its declared type. Nothing is reported but the
/// repetitions of the marker on that variant.
pub proof fn lemma_single_bare_marker(
    name: Seq<char>,
    variants: Seq<VariantView>,
    location: Location,
    only: int,
)
    requires
        0 <= only < variants.len(),
        marker(variants[only]) matches Some(attr) && attr.form is Bare,
        forall|j: int| 0 <= j < variants.len() && j != only ==> marker(#[trigger] variants[j]) is None,
        fields_unannotated(variants[only].fields.members()),
    ensures
        enum_constructor(name, variants) == (ConstructorExpressionView::Construct {
            target: TargetPathView { name, variant: Some(variants[only].name) },
            body: BodyView {
                shape: shape_of(variants[only].fields),
                values: fallback_values(variants[only].fields.members()),
            },
        }),
        enum_diagnostics(None, variants, location) == duplicate_diagnostics(
            variants[only].annotations,
            DEFAULT_IDENT@,
        ),
{
    let variant = variants[only];
    let attr = marker(variant)->0;
    let list = variant.fields.members();
    lemma_selected_in_prefix(variants, only, variants.len() as int);
    assert(variants.take(variants.len() as int) =~= variants);
    lemma_only_marked_variant(variants, only, variants.len() as int);
    lemma_unmarked_prefix(variants, only);
    lemma_unannotated_fields_are_silent(None, list);
    assert forall|i: int| 0 <= i < list.len() implies field_level_value(#[trigger] list[i])
        is None && top_level_value(None, list[i].identity) is None by {
        assert(unannotated(list[i].annotations));
    }
    lemma_fallback_sourced_values(None, list);
    assert(variant_overrides(attr, variant) is None);
    assert(variant_diagnostics(variants, only) =~= duplicate_diagnostics(
        variant.annotations,
        DEFAULT_IDENT@,
    ));
    assert(enum_diagnostics(None, variants, location) =~= duplicate_diagnostics(
        variant.annotations,
        DEFAULT_IDENT@,
    ));
}

/// Of several marked variants the first is the default, whatever follows it; and of each
/// marked variant after it exactly one conflict is reported, which names the first, after the
/// repetitions of that variant's own marker.
pub proof fn lemma_first_marked_variant_wins(
    name: Seq<char>,
    variants: Seq<VariantView>,
    first: int,
    later: int,
)
    requires
        0 <= first < later < variants.len(),
        marker(variants[first]) is Some,
        forall|j: int| 0 <= j < first ==> marker(#[trigger] variants[j]) is None,
        marker(variants[later]) is Some,
    ensures
        selected(variants) == Some(first),
        enum_constructor(name, variants) == variant_constructor(
            name,
            marker(variants[first])->0,
            variants[first],
        ),
        variant_diagnostics(variants, later) == duplicate_diagnostics(
            variants[later].annotations,
            DEFAULT_IDENT@,
        ).push(
            DiagnosticView {
                location: marker(variants[later])->0.location,
                kind: DiagnosticKindView::MultipleDefaultVariants(variants[first].name),
            },
        ),
{
    lemma_selected_in_prefix(variants, first, variants.len() as int);
    assert(variants.take(variants.len() as int) =~= variants);
    lemma_selected_in_prefix(variants, first, later);
    assert(variant_diagnostics(variants, later) =~= duplicate_diagnostics(
        variants[later].annotations,
        DEFAULT_IDENT@,
    ).push(
        DiagnosticView {
            location: marker(variants[later])->0.location,
            kind: DiagnosticKindView::MultipleDefaultVariants(variants[first].name),
        },
    ));
}

/// Whatever is reported, a record and a tagged union get an implementation, under the name and
/// with the generic parameters of the declaration; a declaration of another kind gets none, and
/// of it exactly one thing is reported.
pub proof fn lemma_diagnostics_never_stop_the_work(declaration: DeclarationView)
    ensures
        match declaration.kind {
            DeclarationKindView::Unsupported => derived(declaration).implementation is None
                && derived(declaration).diagnostics == seq![
                DiagnosticView {
                    location: declaration.location,
                    kind: DiagnosticKindView::UnsupportedDeclarationKind,
                },
            ],
            _ => derived(declaration).implementation matches Some(implementation)
                && implementation.name == declaration.name && implementation.generics
                == declaration.generics,
        },
{
}

/// Two runs on the same declaration agree: on the implementation, and on the diagnostics with
/// their numbers.
pub proof fn lemma_derive_is_deterministic(
    declaration: DeclarationView,
    first: DerivedView,
    second: DerivedView,
)
    requires
        first == derived(declaration),
        second == derived(declaration),
    ensures
        first.implementation == second.implementation,
        first.diagnostics == second.diagnostics,
        first.diagnostics.to_multiset() == second.diagnostics.to_multiset(),
{
}

/// A kind of diagnostic that is counted in a report.
pub enum Counted {
    UnknownField,
    ConflictingDefaultSource,
    MultipleDefaultVariants,
}

/// Whether a diagnostic of this kind is one of those that are counted.
pub open spec fn is_counted(counted: Counted, kind: DiagnosticKindView) -> bool {
    match counted {
        Counted::UnknownField => kind is UnknownField,
        Counted::ConflictingDefaultSource => kind is ConflictingDefaultSource,
        Counted::MultipleDefaultVariants => kind is MultipleDefaultVariants,
    }
}

/// How many diagnostics of a report are of the counted kind.
pub open spec fn count(diagnostics: Seq<DiagnosticView>, counted: Counted) -> nat
    decreases diagnostics.len(),
{
    if diagnostics.len() == 0 {
        0
    } else {
        count(diagnostics.drop_last(), counted) + if is_counted(counted, diagnostics.last().kind) {
            1nat
        } else {
            0nat
        }
    }
}

/// The count of two reports, one after the other, is the sum of their counts.
pub proof fn lemma_count_add(first: Seq<DiagnosticView>, second: Seq<DiagnosticView>, counted: Counted)
    ensures
        count(first + second, counted) == count(first, counted) + count(second, counted),
    decreases second.len(),
{
    if second.len() == 0 {
        assert(first + second =~= first);
    } else {
        assert((first + second).drop_last() =~= first + second.drop_last());
        lemma_count_add(first, second.drop_last(), counted);
    }
}

/// A report that holds no diagnostic of the counted kind counts zero.
pub proof fn lemma_count_none(diagnostics: Seq<DiagnosticView>, counted: Counted)
    requires
        forall|i: int|
            0 <= i < diagnostics.len() ==> !is_counted(counted, (#[trigger] diagnostics[i]).kind),
    ensures
        count(diagnostics, counted) == 0,
    decreases diagnostics.len(),
{
    if diagnostics.len() > 0 {
        assert forall|i: int| 0 <= i < diagnostics.drop_last().len() implies !is_counted(
            counted,
            (#[trigger] diagnostics.drop_last()[i]).kind,
        ) by {
            assert(diagnostics.drop_last()[i] == diagnostics[i]);
        }
        lemma_count_none(diagnostics.drop_last(), counted);
        assert(diagnostics.last() == diagnostics[diagnostics.len() - 1]);
    }
}

/// A report of one diagnostic counts one if that is of the counted kind, and zero if not.
pub proof fn lemma_count_one(diagnostic: DiagnosticView, counted: Counted)
    ensures
        count(seq![diagnostic], counted) == if is_counted(counted, diagnostic.kind) {
            1nat
        } else {
            0nat
        },
{
    let one = seq![diagnostic];
    assert(one.len() == 1);
    assert(one.drop_last() =~= Seq::<DiagnosticView>::empty());
    assert(count(one.drop_last(), counted) == 0);
    assert(one.last() == diagnostic);
}

/// The reports on repeated annotations hold none of the counted kinds.
pub proof fn lemma_repetitions_count_zero(annotations: Seq<AnnotationView>, counted: Counted)
    ensures
        count(duplicate_diagnostics(annotations, DEFAULT_IDENT@), counted) == 0,
{
    lemma_count_none(duplicate_diagnostics(annotations, DEFAULT_IDENT@), counted);
}

/// How many of the assignments name a field that is not among `names`.
pub open spec fn unknown_assignments(assignments: Seq<FieldAssignView>, names: Seq<Seq<char>>) -> nat
    decreases assignments.len(),
{
    if assignments.len() == 0 {
        0
    } else {
        unknown_assignments(assignments.drop_last(), names) + if names.contains(
            assignments.last().ident.text(),
        ) {
            0nat
        } else {
            1nat
        }
    }
}

/// Of a list of assignments there are as many reports of an unknown field as there are
/// assignments to unknown fields: one for each.
pub proof fn lemma_one_report_per_unknown_field(
    assignments: Seq<FieldAssignView>,
    names: Seq<Seq<char>>,
    location: Location,
)
    ensures
        count(override_diagnostics(assignments, names, location), Counted::UnknownField)
            == unknown_assignments(assignments, names),
    decreases assignments.len(),
{
    if assignments.len() > 0 {
        let earlier = override_diagnostics(assignments.drop_last(), names, location);
        let last = assignment_diagnostics(assignments, names, location);
        lemma_one_report_per_unknown_field(assignments.drop_last(), names, location);
        lemma_count_add(earlier, last, Counted::UnknownField);
        if last.len() == 0 {
        } else {
            assert(last =~= seq![last[0]]);
            lemma_count_one(last[0], Counted::UnknownField);
        }
    }
}

/// The report on a list of assignments holds no diagnostic of another counted kind than that
/// of an unknown field.
pub proof fn lemma_assignments_count_zero(
    assignments: Seq<FieldAssignView>,
    names: Seq<Seq<char>>,
    location: Location,
    counted: Counted,
)
    requires
        !(counted is UnknownField),
    ensures
        count(override_diagnostics(assignments, names, location), counted) == 0,
    decreases assignments.len(),
{
    if assignments.len() > 0 {
        let earlier = override_diagnostics(assignments.drop_last(), names, location);
        let last = assignment_diagnostics(assignments, names, location);
        lemma_assignments_count_zero(assignments.drop_last(), names, location, counted);
        lemma_count_add(earlier, last, counted);
        lemma_count_none(last, counted);
    }
}

/// How many of the fields the enclosing annotation assigns a value to.
pub open spec fn assigned_members(top: Option<Map<Seq<char>, Seq<char>>>, members: Seq<MemberView>) -> nat
    decreases members.len(),
{
    if members.len() == 0 {
        0
    } else {
        assigned_members(top, members.drop_last()) + if top_level_value(
            top,
            members.last().identity,
        ) is Some {
            1nat
        } else {
            0nat
        }
    }
}

/// Where every field has a value from its own annotation, there are as many reports of a
/// conflict as there are fields to which the enclosing annotation assigns a value: one for
/// each; and the report is longer by that number than the report without an enclosing
/// annotation.
pub proof fn lemma_one_conflict_per_assigned_field(
    top: Option<Map<Seq<char>, Seq<char>>>,
    members: Seq<MemberView>,
)
    requires
        forall|i: int| 0 <= i < members.len() ==> field_level_value(#[trigger] members[i]) is Some,
    ensures
        count(fields_diagnostics(top, members), Counted::ConflictingDefaultSource)
            == assigned_members(top, members),
        fields_diagnostics(top, members).len() == fields_diagnostics(None, members).len()
            + assigned_members(top, members),
    decreases members.len(),
{
    if members.len() > 0 {
        let last = members.last();
        assert(last == members[members.len() - 1]);
        assert forall|i: int| 0 <= i < members.drop_last().len() implies field_level_value(
            #[trigger] members.drop_last()[i],
        ) is Some by {
            assert(members.drop_last()[i] == members[i]);
        }
        lemma_one_conflict_per_assigned_field(top, members.drop_last());
        lemma_count_add(
            fields_diagnostics(top, members.drop_last()),
            field_diagnostics(top, last),
            Counted::ConflictingDefaultSource,
        );
        lemma_count_add(
            duplicate_diagnostics(last.annotations, DEFAULT_IDENT@),
            source_diagnostics(top, last),
            Counted::ConflictingDefaultSource,
        );
        lemma_repetitions_count_zero(last.annotations, Counted::ConflictingDefaultSource);
        let own = source_diagnostics(top, last);
        if own.len() == 0 {
        } else {
            assert(own =~= seq![own[0]]);
            lemma_count_one(own[0], Counted::ConflictingDefaultSource);
        }
        assert(source_diagnostics(None, last).len() == 0);
    }
}

/// Whether no two of the fields have the same identity.
pub open spec fn distinct_identities(members: Seq<MemberView>) -> bool {
    forall|i: int, j: int|
        0 <= i < j < members.len() ==> (#[trigger] members[i]).identity != (
        #[trigger] members[j]).identity
}

/// Whether every key of the map is the identity of a field.
pub open spec fn keys_are_identities(map: Map<Seq<char>, Seq<char>>, members: Seq<MemberView>) -> bool {
    forall|key: Seq<char>|
        map.dom().contains(key) ==> exists|i: int|
            0 <= i < members.len() && (#[trigger] members[i]).identity == key
}

/// Where no two fields have the same identity and every key of the enclosing annotation's map
/// is the identity of a field, the map assigns to as many fields as it has keys.
pub proof fn lemma_assigned_fields_are_the_keys(
    map: Map<Seq<char>, Seq<char>>,
    members: Seq<MemberView>,
)
    requires
        map.dom().finite(),
        distinct_identities(members),
        keys_are_identities(map, members),
    ensures
        assigned_members(Some(map), members) == map.len(),
    decreases members.len(),
{
    if members.len() == 0 {
        if map.len() != 0 {
            let key = map.dom().choose();
            assert(map.dom().contains(key));
        }
        assert(map.dom() =~= Set::<Seq<char>>::empty()) by {
            assert forall|key: Seq<char>| !map.dom().contains(key) by {
                if map.dom().contains(key) {
                    let i = choose|i: int|
                        0 <= i < members.len() && (#[trigger] members[i]).identity == key;
                }
            }
        }
    } else {
        let earlier = members.drop_last();
        let last = members.last();
        assert(last == members[members.len() - 1]);
        assert forall|i: int| 0 <= i < earlier.len() implies #[trigger] earlier[i] == members[i] by {}
        assert(distinct_identities(earlier)) by {
            assert forall|i: int, j: int| 0 <= i < j < earlier.len() implies (
            #[trigger] earlier[i]).identity != (#[trigger] earlier[j]).identity by {
                assert(earlier[i] == members[i]);
                assert(earlier[j] == members[j]);
            }
        }
        let rest = map.remove(last.identity);
        assert(keys_are_identities(rest, earlier)) by {
            assert forall|key: Seq<char>| rest.dom().contains(key) implies exists|i: int|
                0 <= i < earlier.len() && (#[trigger] earlier[i]).identity == key by {
                assert(map.dom().contains(key));
                let i = choose|i: int|
                    0 <= i < members.len() && (#[trigger] members[i]).identity == key;
                assert(i < members.len() - 1);
                assert(earlier[i].identity == key);
            }
        }
        lemma_assigned_fields_are_the_keys(rest, earlier);
        lemma_same_assignments_without_key(map, earlier, last.identity);
    }
}

/// A key that is the identity of none of the fields makes no difference to how many of them
/// the map assigns to.
pub proof fn lemma_same_assignments_without_key(
    map: Map<Seq<char>, Seq<char>>,
    members: Seq<MemberView>,
    key: Seq<char>,
)
    requires
        forall|i: int| 0 <= i < members.len() ==> (#[trigger] members[i]).identity != key,
    ensures
        assigned_members(Some(map), members) == assigned_members(Some(map.remove(key)), members),
    decreases members.len(),
{
    if members.len() > 0 {
        assert forall|i: int| 0 <= i < members.drop_last().len() implies (
        #[trigger] members.drop_last()[i]).identity != key by {
            assert(members.drop_last()[i] == members[i]);
        }
        lemma_same_assignments_without_key(map, members.drop_last(), key);
        assert(members.last() == members[members.len() - 1]);
    }
}

/// The report on the fields of a list holds no diagnostic of another counted kind than that of
/// a conflict.
pub proof fn lemma_fields_count_zero(
    top: Option<Map<Seq<char>, Seq<char>>>,
    members: Seq<MemberView>,
    counted: Counted,
)
    requires
        !(counted is ConflictingDefaultSource),
    ensures
        count(fields_diagnostics(top, members), counted) == 0,
    decreases members.len(),
{
    if members.len() > 0 {
        let last = members.last();
        lemma_fields_count_zero(top, members.drop_last(), counted);
        lemma_count_add(
            fields_diagnostics(top, members.drop_last()),
            field_diagnostics(top, last),
            counted,
        );
        lemma_count_add(
            duplicate_diagnostics(last.annotations, DEFAULT_IDENT@),
            source_diagnostics(top, last),
            counted,
        );
        lemma_repetitions_count_zero(last.annotations, counted);
        lemma_count_none(source_diagnostics(top, last), counted);
    }
}

/// The report on the annotation of a record or of a variant holds no report of a second
/// default variant.
pub proof fn lemma_annotation_counts_zero(
    attr: AnnotationView,
    names: Seq<Seq<char>>,
    require_list: bool,
)
    ensures
        count(top_diagnostics(attr, names, require_list), Counted::MultipleDefaultVariants) == 0,
{
    let counted = Counted::MultipleDefaultVariants;
    let first = argument_diagnostics(attr, require_list);
    lemma_count_none(first, counted);
    match arguments(attr) {
        Some(assignments) => {
            lemma_assignments_count_zero(assignments, names, attr.location, counted);
            lemma_count_add(
                first,
                override_diagnostics(assignments, names, attr.location),
                counted,
            );
        },
        None => {
            lemma_count_add(first, Seq::<DiagnosticView>::empty(), counted);
        },
    }
}

/// How many of the variants are marked.
pub open spec fn marked_variants(variants: Seq<VariantView>) -> nat
    decreases variants.len(),
{
    if variants.len() == 0 {
        0
    } else {
        marked_variants(variants.drop_last()) + if marker(variants.last()) is Some {
            1nat
        } else {
            0nat
        }
    }
}

/// A variant is selected exactly where at least one is marked.
pub proof fn lemma_selected_where_marked(variants: Seq<VariantView>)
    ensures
        selected(variants) is Some <==> marked_variants(variants) > 0,
    decreases variants.len(),
{
    if variants.len() > 0 {
        lemma_selected_where_marked(variants.drop_last());
    }
}

/// Of the variants of a tagged union there are as many reports of a second default variant as
/// there are marked variants after the first: one for each.
pub proof fn lemma_one_report_per_later_marked_variant(variants: Seq<VariantView>)
    ensures
        count(variants_diagnostics(variants), Counted::MultipleDefaultVariants) == if marked_variants(
            variants,
        ) == 0 {
            0
        } else {
            marked_variants(variants) - 1
        },
    decreases variants.len(),
{
    let counted = Counted::MultipleDefaultVariants;
    if variants.len() > 0 {
        let earlier = variants.drop_last();
        let last = variants.last();
        let index = variants.len() - 1;
        assert(variants[index] == last);
        assert(variants.take(index) =~= earlier);
        lemma_one_report_per_later_marked_variant(earlier);
        lemma_selected_where_marked(earlier);
        lemma_count_add(variants_diagnostics(earlier), variant_diagnostics(variants, index), counted);
        match marker(last) {
            None => {},
            Some(attr) => {
                let repeated = duplicate_diagnostics(last.annotations, DEFAULT_IDENT@);
                lemma_repetitions_count_zero(last.annotations, counted);
                match selected(earlier) {
                    Some(first) => {
                        let conflict = DiagnosticView {
                            location: attr.location,
                            kind: DiagnosticKindView::MultipleDefaultVariants(variants[first].name),
                        };
                        lemma_count_one(conflict, counted);
                        lemma_count_add(repeated, seq![conflict], counted);
                    },
                    None => {
                        let of_marker = top_diagnostics(attr, field_names(last.fields), false);
                        let of_fields = body_diagnostics(
                            variant_overrides(attr, last),
                            last.fields,
                        );
                        lemma_annotation_counts_zero(attr, field_names(last.fields), false);
                        lemma_fields_count_zero(
                            variant_overrides(attr, last),
                            last.fields.members(),
                            counted,
                        );
                        lemma_count_add(of_marker, of_fields, counted);
                        lemma_count_add(repeated, of_marker + of_fields, counted);
                    },
                }
            },
        }
    }
}

} // verus!
