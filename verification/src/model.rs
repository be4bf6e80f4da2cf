//! The declaration as the synthesizer reads it: plain data, in declaration order.

use vstd::prelude::*;

verus! {

/// The views of the items of a sequence, in the same order.
pub open spec fn views<T: View>(items: Seq<T>) -> Seq<T::V> {
    items.map_values(|item: T| item@)
}

/// The view of an item that may be absent.
pub open spec fn optional_view<T: View>(item: Option<T>) -> Option<T::V> {
    match item {
        Some(item) => Some(item@),
        None => None,
    }
}

/// A place in the source. `node` is the handle under which the host knows a declaration, a
/// variant, a field or an annotation; `entry`, where present, counts the assignments of that
/// annotation's argument list from zero.
#[derive(Clone, Copy, Debug, PartialEq, Eq)]
pub struct Location {
    pub node: u64,
    pub entry: Option<usize>,
}

/// What follows an annotation's identifier.
#[derive(Clone, Debug, PartialEq, Eq)]
pub enum ArgumentForm {
    /// Nothing: `#[default]`.
    Bare,
    /// A delimited argument list, held as the text between the delimiters: `#[default(..)]`.
    List(String),
    /// An assigned value, held as the text after the equals sign: `#[default = ..]`.
    NameValue(String),
}

pub enum ArgumentFormView {
    Bare,
    List(Seq<char>),
    NameValue(Seq<char>),
}

impl View for ArgumentForm {
    type V = ArgumentFormView;

    open spec fn view(&self) -> ArgumentFormView {
        match *self {
            ArgumentForm::Bare => ArgumentFormView::Bare,
            ArgumentForm::List(text) => ArgumentFormView::List(text@),
            ArgumentForm::NameValue(text) => ArgumentFormView::NameValue(text@),
        }
    }
}

/// One annotation of a declaration, a variant or a field.
#[derive(Clone, Debug, PartialEq, Eq)]
pub struct Annotation {
    pub identifier: String,
    pub form: ArgumentForm,
    pub location: Location,
}

pub struct AnnotationView {
    pub identifier: Seq<char>,
    pub form: ArgumentFormView,
    pub location: Location,
}

impl View for Annotation {
    type V = AnnotationView;

    open spec fn view(&self) -> AnnotationView {
        AnnotationView {
            identifier: self.identifier@,
            form: self.form@,
            location: self.location,
        }
    }
}

/// One field: its declared type and its annotations. What a field is called depends on the list
/// that holds it.
#[derive(Clone, Debug, PartialEq, Eq)]
pub struct Field {
    pub ty: String,
    pub annotations: Vec<Annotation>,
}

pub struct FieldView {
    pub ty: Seq<char>,
    pub annotations: Seq<AnnotationView>,
}

impl View for Field {
    type V = FieldView;

    open spec fn view(&self) -> FieldView {
        FieldView { ty: self.ty@, annotations: views(self.annotations@) }
    }
}

/// One field of a named list, under its name.
#[derive(Clone, Debug, PartialEq, Eq)]
pub struct NamedField {
    pub name: String,
    pub field: Field,
}

pub struct NamedFieldView {
    pub name: Seq<char>,
    pub field: FieldView,
}

impl View for NamedField {
    type V = NamedFieldView;

    open spec fn view(&self) -> NamedFieldView {
        NamedFieldView { name: self.name@, field: self.field@ }
    }
}

/// The fields of a record or of a variant, in declaration order. The form of the list decides
/// how a field is identified: by its name in a named list, by its position in a positional one.
#[derive(Clone, Debug, PartialEq, Eq)]
pub enum FieldList {
    Named(Vec<NamedField>),
    Positional(Vec<Field>),
    Empty,
}

pub enum FieldListView {
    Named(Seq<NamedFieldView>),
    Positional(Seq<FieldView>),
    Empty,
}

impl View for FieldList {
    type V = FieldListView;

    open spec fn view(&self) -> FieldListView {
        match *self {
            FieldList::Named(fields) => FieldListView::Named(views(fields@)),
            FieldList::Positional(fields) => FieldListView::Positional(views(fields@)),
            FieldList::Empty => FieldListView::Empty,
        }
    }
}

/// A field as a member of its list: with the label under which its value stands in a
/// constructor, if it has one, and with the identity by which an assignment finds it.
pub struct MemberView {
    pub label: Option<Seq<char>>,
    pub identity: Seq<char>,
    pub ty: Seq<char>,
    pub annotations: Seq<AnnotationView>,
}

impl FieldListView {
    /// The number of fields. An absent list has none.
    pub open spec fn len(self) -> nat {
        match self {
            FieldListView::Named(fields) => fields.len(),
            FieldListView::Positional(fields) => fields.len(),
            FieldListView::Empty => 0,
        }
    }

    /// The field at position `index` as a member of the list. In a named list its name is both
    /// label and identity; in a positional list it has no label, and its identity is the
    /// decimal numeral of its position, counted from zero.
    pub open spec fn member(self, index: int) -> MemberView
        recommends
            0 <= index < self.len(),
    {
        match self {
            FieldListView::Named(fields) => MemberView {
                label: Some(fields[index].name),
                identity: fields[index].name,
                ty: fields[index].field.ty,
                annotations: fields[index].field.annotations,
            },
            FieldListView::Positional(fields) => MemberView {
                label: None,
                identity: crate::text::decimal_text(index as nat),
                ty: fields[index].ty,
                annotations: fields[index].annotations,
            },
            FieldListView::Empty => arbitrary(),
        }
    }

    /// The members of the list, in declaration order.
    pub open spec fn members(self) -> Seq<MemberView> {
        Seq::new(self.len(), |index: int| self.member(index))
    }
}

/// One variant of a tagged union.
#[derive(Clone, Debug, PartialEq, Eq)]
pub struct Variant {
    pub name: String,
    pub annotations: Vec<Annotation>,
    pub fields: FieldList,
}

pub struct VariantView {
    pub name: Seq<char>,
    pub annotations: Seq<AnnotationView>,
    pub fields: FieldListView,
}

impl View for Variant {
    type V = VariantView;

    open spec fn view(&self) -> VariantView {
        VariantView {
            name: self.name@,
            annotations: views(self.annotations@),
            fields: self.fields@,
        }
    }
}

/// What kind of type a declaration declares, with what that kind holds.
#[derive(Clone, Debug, PartialEq, Eq)]
pub enum DeclarationKind {
    Record(FieldList),
    TaggedUnion(Vec<Variant>),
    Unsupported,
}

pub enum DeclarationKindView {
    Record(FieldListView),
    TaggedUnion(Seq<VariantView>),
    Unsupported,
}

impl View for DeclarationKind {
    type V = DeclarationKindView;

    open spec fn view(&self) -> DeclarationKindView {
        match *self {
            DeclarationKind::Record(fields) => DeclarationKindView::Record(fields@),
            DeclarationKind::TaggedUnion(variants) => DeclarationKindView::TaggedUnion(
                views(variants@),
            ),
            DeclarationKind::Unsupported => DeclarationKindView::Unsupported,
        }
    }
}

/// A type declaration. The generic parameters are carried through untouched.
#[derive(Clone, Debug, PartialEq, Eq)]
pub struct Declaration {
    pub name: String,
    pub generics: String,
    pub annotations: Vec<Annotation>,
    pub kind: DeclarationKind,
    pub location: Location,
}

pub struct DeclarationView {
    pub name: Seq<char>,
    pub generics: Seq<char>,
    pub annotations: Seq<AnnotationView>,
    pub kind: DeclarationKindView,
    pub location: Location,
}

impl View for Declaration {
    type V = DeclarationView;

    open spec fn view(&self) -> DeclarationView {
        DeclarationView {
            name: self.name@,
            generics: self.generics@,
            annotations: views(self.annotations@),
            kind: self.kind@,
            location: self.location,
        }
    }
}

} // verus!
