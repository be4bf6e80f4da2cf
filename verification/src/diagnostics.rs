//! What the synthesizer reports. A diagnostic never stops the work: each one is appended to the
//! list that the caller handed in.

use vstd::prelude::*;
use vstd::string::*;
use crate::model::Location;

verus! {

/// In what way an annotation's arguments are not what their place asks for.
#[derive(Clone, Copy, Debug, PartialEq, Eq)]
pub enum Malformed {
    /// The annotation is bare or assigns a value where an argument list is needed, or assigns a
    /// value where only a list or a bare annotation can stand.
    Form,
    /// The argument list is no sequence of tokens.
    Tokens,
    /// An assignment does not begin with a field's name or position.
    Identity,
    /// No colon follows the field's name or position.
    Colon,
    /// No expression follows the colon, or the expression is not followed by a comma or by the
    /// end of the list.
    Expression,
}

/// Why an argument list could not be read, and at which assignment, counted from zero, where
/// the failure lies in one.
#[derive(Clone, Copy, Debug, PartialEq, Eq)]
pub struct SyntaxError {
    pub entry: Option<usize>,
    pub reason: Malformed,
}

/// The misuse that a diagnostic reports.
#[derive(Clone, Debug, PartialEq, Eq)]
pub enum DiagnosticKind {
    /// The same marker stands more than once on one declaration, variant or field.
    DuplicateAnnotation,
    /// The arguments are not of the form that their place asks for.
    MalformedArguments(Malformed),
    /// An assignment names a field that the enclosing field list does not have.
    UnknownField(String),
    /// An assignment names a field that an earlier assignment of the same list names.
    DuplicateFieldAssignment,
    /// A field has a value of its own and one from the enclosing annotation.
    ConflictingDefaultSource,
    /// A tagged union carries the marker on the declaration itself.
    TopLevelOnTaggedUnion,
    /// A variant is marked though an earlier one, named here, is the default already.
    MultipleDefaultVariants(String),
    /// No variant of a tagged union is marked.
    NoDefaultVariant,
    /// The declaration is neither a record nor a tagged union.
    UnsupportedDeclarationKind,
}

pub enum DiagnosticKindView {
    DuplicateAnnotation,
    MalformedArguments(Malformed),
    UnknownField(Seq<char>),
    DuplicateFieldAssignment,
    ConflictingDefaultSource,
    TopLevelOnTaggedUnion,
    MultipleDefaultVariants(Seq<char>),
    NoDefaultVariant,
    UnsupportedDeclarationKind,
}

impl View for DiagnosticKind {
    type V = DiagnosticKindView;

    open spec fn view(&self) -> DiagnosticKindView {
        match *self {
            DiagnosticKind::DuplicateAnnotation => DiagnosticKindView::DuplicateAnnotation,
            DiagnosticKind::MalformedArguments(reason) => DiagnosticKindView::MalformedArguments(
                reason,
            ),
            DiagnosticKind::UnknownField(name) => DiagnosticKindView::UnknownField(name@),
            DiagnosticKind::DuplicateFieldAssignment => DiagnosticKindView::DuplicateFieldAssignment,
            DiagnosticKind::ConflictingDefaultSource => DiagnosticKindView::ConflictingDefaultSource,
            DiagnosticKind::TopLevelOnTaggedUnion => DiagnosticKindView::TopLevelOnTaggedUnion,
            DiagnosticKind::MultipleDefaultVariants(name) => {
                DiagnosticKindView::MultipleDefaultVariants(name@)
            },
            DiagnosticKind::NoDefaultVariant => DiagnosticKindView::NoDefaultVariant,
            DiagnosticKind::UnsupportedDeclarationKind => {
                DiagnosticKindView::UnsupportedDeclarationKind
            },
        }
    }
}

/// The wording for each way in which arguments can be malformed.
pub open spec fn malformed_message(reason: Malformed) -> Seq<char> {
    match reason {
        Malformed::Form => "expected arguments in parentheses, or a bare annotation"@,
        Malformed::Tokens => "expected a sequence of tokens"@,
        Malformed::Identity => "expected a field name or a field position"@,
        Malformed::Colon => "expected `:`"@,
        Malformed::Expression => "expected an expression"@,
    }
}

impl DiagnosticKindView {
    /// The wording of a diagnostic of this kind.
    pub open spec fn message(self) -> Seq<char> {
        match self {
            DiagnosticKindView::DuplicateAnnotation => "this annotation is already declared"@,
            DiagnosticKindView::MalformedArguments(reason) => malformed_message(reason),
            DiagnosticKindView::UnknownField(name) => "unknown field `"@ + name + "`"@,
            DiagnosticKindView::DuplicateFieldAssignment => "this field is already declared"@,
            DiagnosticKindView::ConflictingDefaultSource => {
                "a default value for this field already exists in the top default annotation"@
            },
            DiagnosticKindView::TopLevelOnTaggedUnion => {
                "top-level default annotations are not allowed on tagged unions"@
            },
            DiagnosticKindView::MultipleDefaultVariants(name) => {
                "the default value is already assigned to `"@ + name + "`"@
            },
            DiagnosticKindView::NoDefaultVariant => "the default variant has not been set"@,
            DiagnosticKindView::UnsupportedDeclarationKind => {
                "this generator is not implemented for this declaration kind"@
            },
        }
    }
}

/// One reported misuse, with the place it is about.
#[derive(Clone, Debug, PartialEq, Eq)]
pub struct Diagnostic {
    pub location: Location,
    pub kind: DiagnosticKind,
}

pub struct DiagnosticView {
    pub location: Location,
    pub kind: DiagnosticKindView,
}

impl View for Diagnostic {
    type V = DiagnosticView;

    open spec fn view(&self) -> DiagnosticView {
        DiagnosticView { location: self.location, kind: self.kind@ }
    }
}

fn malformed_wording(reason: Malformed) -> (text: &'static str)
    ensures
        text@ == malformed_message(reason),
{
    match reason {
        Malformed::Form => "expected arguments in parentheses, or a bare annotation",
        Malformed::Tokens => "expected a sequence of tokens",
        Malformed::Identity => "expected a field name or a field position",
        Malformed::Colon => "expected `:`",
        Malformed::Expression => "expected an expression",
    }
}

fn quoted(before: &str, name: &str) -> (text: String)
    ensures
        text@ == before@ + name@ + "`"@,
{
    let mut text = before.to_owned();
    text.append(name);
    text.append("`");
    text
}

impl Diagnostic {
    /// The wording of this diagnostic.
    pub fn message(&self) -> (text: String)
        ensures
            text@ == self@.kind.message(),
    {
        match &self.kind {
            DiagnosticKind::DuplicateAnnotation => "this annotation is already declared".to_owned(),
            DiagnosticKind::MalformedArguments(reason) => malformed_wording(*reason).to_owned(),
            DiagnosticKind::UnknownField(name) => quoted("unknown field `", name.as_str()),
            DiagnosticKind::DuplicateFieldAssignment => "this field is already declared".to_owned(),
            DiagnosticKind::ConflictingDefaultSource => {
                "a default value for this field already exists in the top default annotation".to_owned()
            },
            DiagnosticKind::TopLevelOnTaggedUnion => {
                "top-level default annotations are not allowed on tagged unions".to_owned()
            },
            DiagnosticKind::MultipleDefaultVariants(name) => {
                quoted("the default value is already assigned to `", name.as_str())
            },
            DiagnosticKind::NoDefaultVariant => "the default variant has not been set".to_owned(),
            DiagnosticKind::UnsupportedDeclarationKind => {
                "this generator is not implemented for this declaration kind".to_owned()
            },
        }
    }
}

/// Appends one diagnostic to the list.
pub fn report(diagnostics: &mut Vec<Diagnostic>, location: Location, kind: DiagnosticKind)
    ensures
        crate::model::views(final(diagnostics)@) == crate::model::views(old(diagnostics)@).push(
            (DiagnosticView { location, kind: kind@ }),
        ),
{
    let diagnostic = Diagnostic { location, kind };
    proof {
        crate::text::lemma_views_push(diagnostics@, diagnostic);
    }
    diagnostics.push(diagnostic);
}

} // verus!
