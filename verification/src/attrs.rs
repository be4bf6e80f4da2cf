//! Finding the annotations of one identifier among those of a declaration, a variant or a field.

use vstd::prelude::*;
use crate::diagnostics::{report, Diagnostic, DiagnosticKind, DiagnosticKindView, DiagnosticView};
use crate::model::{optional_view, views, Annotation, AnnotationView};
use crate::text::same_text;

verus! {

/// The identifier of the annotations that the synthesizer reads.
pub const DEFAULT_IDENT: &'static str = "default";

/// The annotations that carry `identifier`, in their order.
pub open spec fn matching(annotations: Seq<AnnotationView>, identifier: Seq<char>) -> Seq<
    AnnotationView,
> {
    annotations.filter(|annotation: AnnotationView| annotation.identifier == identifier)
}

/// The first annotation that carries `identifier`, if there is one.
pub open spec fn first_match(annotations: Seq<AnnotationView>, identifier: Seq<char>) -> Option<
    AnnotationView,
> {
    if matching(annotations, identifier).len() == 0 {
        None
    } else {
        Some(matching(annotations, identifier)[0])
    }
}

/// The annotations that carry `identifier` after the first that does, in their order.
pub open spec fn duplicates(annotations: Seq<AnnotationView>, identifier: Seq<char>) -> Seq<
    AnnotationView,
> {
    if matching(annotations, identifier).len() == 0 {
        Seq::empty()
    } else {
        matching(annotations, identifier).skip(1)
    }
}

/// One diagnostic for each repeated annotation, at that annotation.
pub open spec fn duplicate_diagnostics(annotations: Seq<AnnotationView>, identifier: Seq<char>) -> Seq<
    DiagnosticView,
> {
    duplicates(annotations, identifier).map_values(
        |annotation: AnnotationView|
            DiagnosticView {
                location: annotation.location,
                kind: DiagnosticKindView::DuplicateAnnotation,
            },
    )
}

/// The view of what the search for an annotation and its repetitions gave.
pub open spec fn found_view(found: Option<(&Annotation, Vec<&Annotation>)>) -> Option<
    (AnnotationView, Seq<AnnotationView>)
> {
    match found {
        Some((first, rest)) => Some((first@, views(rest@))),
        None => None,
    }
}

/// Finds the first annotation that carries `ident`, and every later one that does.
pub fn find_attribute_and_duplicates<'a>(attrs: &'a [Annotation], ident: &str) -> (found: Option<
    (&'a Annotation, Vec<&'a Annotation>),
>)
    ensures
        found_view(found) == match first_match(views(attrs@), ident@) {
            Some(first) => Some((first, duplicates(views(attrs@), ident@))),
            None => None,
        },
{
    let ghost all = views(attrs@);
    let mut first: Option<&'a Annotation> = None;
    let mut rest: Vec<&'a Annotation> = Vec::new();
    let mut i: usize = 0;
    proof {
        reveal(Seq::filter);
        assert(all.take(0) =~= Seq::<AnnotationView>::empty());
    }
    while i < attrs.len()
        invariant
            all == views(attrs@),
            i <= attrs.len(),
            optional_view(first) == first_match(all.take(i as int), ident@),
            views(rest@) == duplicates(all.take(i as int), ident@),
        decreases attrs.len() - i,
    {
        proof {
            let pred = |annotation: AnnotationView| annotation.identifier == ident@;
            assert(all.take(i as int + 1) =~= all.take(i as int).push(all[i as int]));
            all.take(i as int).lemma_filter_push(all[i as int], pred);
            crate::text::lemma_views_push(rest@, &attrs@[i as int]);
            let before = matching(all.take(i as int), ident@);
            if pred(all[i as int]) && before.len() > 0 {
                assert(before.push(all[i as int]).skip(1) =~= before.skip(1).push(all[i as int]));
            }
            if pred(all[i as int]) && before.len() == 0 {
                assert(before.push(all[i as int]).skip(1) =~= Seq::<AnnotationView>::empty());
            }
        }
        if same_text(attrs[i].identifier.as_str(), ident) {
            if first.is_none() {
                first = Some(&attrs[i]);
            } else {
                rest.push(&attrs[i]);
            }
        }
        i += 1;
    }
    assert(all.take(i as int) =~= all);
    match first {
        Some(first) => Some((first, rest)),
        None => None,
    }
}

/// Finds the first annotation that carries `ident`, and reports every later one that does.
pub fn find_attribute_unique<'l>(
    attrs: &'l [Annotation],
    ident: &str,
    diagnostics: &mut Vec<Diagnostic>,
) -> (found: Option<&'l Annotation>)
    ensures
        optional_view(found) == first_match(views(attrs@), ident@),
        views(final(diagnostics)@) == views(old(diagnostics)@) + duplicate_diagnostics(
            views(attrs@),
            ident@,
        ),
{
    let (attr, repeated) = match find_attribute_and_duplicates(attrs, ident) {
        Some(tuple) => tuple,
        None => {
            assert(views(diagnostics@) + duplicate_diagnostics(views(attrs@), ident@) =~= views(
                diagnostics@,
            ));
            return None;
        },
    };
    let ghost expected = duplicate_diagnostics(views(attrs@), ident@);
    let mut i: usize = 0;
    assert(views(diagnostics@) + expected.take(0) =~= views(diagnostics@));
    while i < repeated.len()
        invariant
            i <= repeated.len(),
            views(repeated@) == duplicates(views(attrs@), ident@),
            expected == duplicate_diagnostics(views(attrs@), ident@),
            views(diagnostics@) == views(old(diagnostics)@) + expected.take(i as int),
        decreases repeated.len() - i,
    {
        report(diagnostics, repeated[i].location, DiagnosticKind::DuplicateAnnotation);
        assert(views(repeated@)[i as int] == repeated@[i as int]@);
        assert(views(diagnostics@) =~= views(old(diagnostics)@) + expected.take(i as int + 1));
        i += 1;
    }
    assert(expected.take(i as int) =~= expected);
    Some(attr)
}

} // verus!
