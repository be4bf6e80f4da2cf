//! The default value of each field of a field list, and the body of the constructor that they
//! make up.
//!
//! A field takes its value from its own annotation, whose argument list must be one expression;
//! failing that, from the annotation of the enclosing record or variant; failing that, from the
//! default of its declared type.

use vstd::prelude::*;
use vstd::string::*;
use crate::attrs::{duplicate_diagnostics, find_attribute_unique, first_match, DEFAULT_IDENT};
use crate::diagnostics::{
    report, Diagnostic, DiagnosticKind, DiagnosticKindView, DiagnosticView, Malformed,
};
use crate::field_assign::OverrideMap;
use crate::model::{
    optional_view, views, Annotation, AnnotationView, ArgumentForm, ArgumentFormView, Field,
    FieldList, FieldListView, Location, MemberView,
};
use crate::syntax::{expression_syntax, is_expression};
use crate::text::decimal;

verus! {

/// The value of one field of a constructor, under the field's name where it has one.
#[derive(Clone, Debug, PartialEq, Eq)]
pub struct DefaultValue {
    pub ident: Option<String>,
    pub value: String,
}

pub struct DefaultValueView {
    pub ident: Option<Seq<char>>,
    pub value: Seq<char>,
}

impl View for DefaultValue {
    type V = DefaultValueView;

    open spec fn view(&self) -> DefaultValueView {
        DefaultValueView { ident: optional_view(self.ident), value: self.value@ }
    }
}

impl DefaultValueView {
    /// The field as it stands in a constructor: `name: value`, or the value alone.
    pub open spec fn text(self) -> Seq<char> {
        match self.ident {
            Some(name) => name + ": "@ + self.value,
            None => self.value,
        }
    }
}

impl DefaultValue {
    /// The field as it stands in a constructor: `name: value`, or the value alone.
    pub fn to_text(&self) -> (text: String)
        ensures
            text@ == self@.text(),
    {
        match &self.ident {
            Some(name) => {
                let mut text = name.clone();
                text.append(": ");
                text.append(self.value.as_str());
                text
            },
            None => self.value.clone(),
        }
    }
}

/// How the fields of a constructor are enclosed.
#[derive(Clone, Copy, Debug, PartialEq, Eq)]
pub enum Shape {
    /// In braces, each value under its field's name.
    Braced,
    /// In parentheses, by position.
    Tuple,
    /// Not at all: the type or variant has no field list.
    Empty,
}

/// The fields of a constructor, in declaration order.
#[derive(Clone, Debug, PartialEq, Eq)]
pub struct Body {
    pub shape: Shape,
    pub values: Vec<DefaultValue>,
}

pub struct BodyView {
    pub shape: Shape,
    pub values: Seq<DefaultValueView>,
}

impl View for Body {
    type V = BodyView;

    open spec fn view(&self) -> BodyView {
        BodyView { shape: self.shape, values: views(self.values@) }
    }
}

/// The fields of a constructor as they stand between its delimiters, separated by commas.
pub open spec fn joined(values: Seq<DefaultValueView>) -> Seq<char>
    decreases values.len(),
{
    if values.len() == 0 {
        Seq::empty()
    } else if values.len() == 1 {
        values[0].text()
    } else {
        joined(values.drop_last()) + ", "@ + values.last().text()
    }
}

impl BodyView {
    /// The body as it follows the path of a constructor.
    pub open spec fn text(self) -> Seq<char> {
        match self.shape {
            Shape::Braced => if self.values.len() == 0 {
                " {}"@
            } else {
                " { "@ + joined(self.values) + " }"@
            },
            Shape::Tuple => "("@ + joined(self.values) + ")"@,
            Shape::Empty => Seq::empty(),
        }
    }
}

impl Body {
    /// The body as it follows the path of a constructor.
    pub fn to_text(&self) -> (text: String)
        ensures
            text@ == self@.text(),
    {
        let ghost all = views(self.values@);
        let mut text = match self.shape {
            Shape::Braced => {
                if self.values.len() == 0 {
                    return " {}".to_owned();
                }
                " { ".to_owned()
            },
            Shape::Tuple => "(".to_owned(),
            Shape::Empty => {
                return String::new();
            },
        };
        let ghost open = text@;
        let mut i: usize = 0;
        assert(all.take(0) =~= Seq::<DefaultValueView>::empty());
        assert(open + Seq::<char>::empty() =~= open);
        while i < self.values.len()
            invariant
                all == views(self.values@),
                i <= self.values.len(),
                text@ == open + joined(all.take(i as int)),
            decreases self.values.len() - i,
        {
            proof {
                let prefix = all.take(i as int + 1);
                assert(prefix.drop_last() =~= all.take(i as int));
                assert(prefix.last() == self.values@[i as int]@);
            }
            if i > 0 {
                text.append(", ");
            }
            let value = self.values[i].to_text();
            text.append(value.as_str());
            assert(text@ =~= open + joined(all.take(i as int + 1)));
            i += 1;
        }
        assert(all.take(i as int) =~= all);
        match self.shape {
            Shape::Braced => {
                text.append(" }");
            },
            _ => {
                text.append(")");
            },
        }
        text
    }
}

/// The expression that asks a type for its own default.
pub open spec fn fallback_expression(ty: Seq<char>) -> Seq<char> {
    "<"@ + ty + " as Default>::default()"@
}

/// The text of which the parser is asked whether it is an expression: the argument list of the
/// annotation, where it has one.
pub open spec fn argument_text(annotation: AnnotationView) -> Seq<char> {
    match annotation.form {
        ArgumentFormView::List(text) => text,
        _ => Seq::empty(),
    }
}

/// What an annotation gives the field it stands on, `accepted` being the parser's answer on
/// its argument list: the list, taken whole, where the parser takes it for one expression; a
/// fault of the expression where it does not; a fault of the form where there is no list.
pub open spec fn own_answer(annotation: AnnotationView, accepted: bool) -> Result<
    Seq<char>,
    Malformed,
> {
    match annotation.form {
        ArgumentFormView::List(text) => if accepted {
            Ok(text)
        } else {
            Err(Malformed::Expression)
        },
        _ => Err(Malformed::Form),
    }
}

/// What the annotations of a field give it: the place and the answer of the first default
/// annotation, if there is one.
pub open spec fn own_source(annotations: Seq<AnnotationView>) -> Option<
    (Location, Result<Seq<char>, Malformed>),
> {
    match first_match(annotations, DEFAULT_IDENT@) {
        Some(annotation) => Some(
            (
                annotation.location,
                own_answer(annotation, expression_syntax(argument_text(annotation))),
            ),
        ),
        None => None,
    }
}

/// The value in what a field's annotations give it, if they give one.
pub open spec fn source_value(own: Option<(Location, Result<Seq<char>, Malformed>)>) -> Option<
    Seq<char>,
> {
    match own {
        Some((_, Ok(value))) => Some(value),
        _ => None,
    }
}

/// The value that a field's own annotation gives it.
pub open spec fn field_level_value(member: MemberView) -> Option<Seq<char>> {
    source_value(own_source(member.annotations))
}

/// The value that the enclosing annotation gives the field of this identity.
pub open spec fn top_level_value(
    top: Option<Map<Seq<char>, Seq<char>>>,
    identity: Seq<char>,
) -> Option<Seq<char>> {
    match top {
        Some(map) => if map.contains_key(identity) {
            Some(map[identity])
        } else {
            None
        },
        None => None,
    }
}

/// The expression that a field of type `ty` gets: the value from its own annotation; failing
/// that, the value from the enclosing annotation; failing that, the default of its type.
pub open spec fn effective(
    field_level: Option<Seq<char>>,
    top_level: Option<Seq<char>>,
    ty: Seq<char>,
) -> Seq<char> {
    match field_level {
        Some(value) => value,
        None => match top_level {
            Some(value) => value,
            None => fallback_expression(ty),
        },
    }
}

/// What is reported of a field, given what its own annotation gives it and what the enclosing
/// annotation assigns to it: the fault of its annotation; or, where that gives a value and the
/// enclosing annotation assigns one too, the conflict. Either is reported at the field's
/// annotation.
pub open spec fn source_reports(
    own: Option<(Location, Result<Seq<char>, Malformed>)>,
    top_level: Option<Seq<char>>,
) -> Seq<DiagnosticView> {
    match own {
        None => Seq::empty(),
        Some((location, Err(reason))) => seq![
            DiagnosticView { location, kind: DiagnosticKindView::MalformedArguments(reason) },
        ],
        Some((location, Ok(_))) => if top_level is Some {
            seq![DiagnosticView { location, kind: DiagnosticKindView::ConflictingDefaultSource }]
        } else {
            Seq::empty()
        },
    }
}

/// The value of a member of a field list.
pub open spec fn default_value(top: Option<Map<Seq<char>, Seq<char>>>, member: MemberView) -> DefaultValueView {
    DefaultValueView {
        ident: member.label,
        value: effective(
            field_level_value(member),
            top_level_value(top, member.identity),
            member.ty,
        ),
    }
}

/// What is reported of the first default annotation of a field, if it has one: that its
/// arguments are no value, or that the enclosing annotation has a value for this field too.
pub open spec fn source_diagnostics(
    top: Option<Map<Seq<char>, Seq<char>>>,
    member: MemberView,
) -> Seq<DiagnosticView> {
    source_reports(own_source(member.annotations), top_level_value(top, member.identity))
}

/// What is reported of one field: its repeated annotations first.
pub open spec fn field_diagnostics(
    top: Option<Map<Seq<char>, Seq<char>>>,
    member: MemberView,
) -> Seq<DiagnosticView> {
    duplicate_diagnostics(member.annotations, DEFAULT_IDENT@) + source_diagnostics(top, member)
}

/// The values of the fields, in declaration order.
pub open spec fn default_values(
    top: Option<Map<Seq<char>, Seq<char>>>,
    members: Seq<MemberView>,
) -> Seq<DefaultValueView> {
    members.map_values(|member: MemberView| default_value(top, member))
}

/// What is reported of the fields, in declaration order.
pub open spec fn fields_diagnostics(
    top: Option<Map<Seq<char>, Seq<char>>>,
    members: Seq<MemberView>,
) -> Seq<DiagnosticView>
    decreases members.len(),
{
    if members.len() == 0 {
        Seq::empty()
    } else {
        fields_diagnostics(top, members.drop_last()) + field_diagnostics(top, members.last())
    }
}

/// How the constructor for a field list encloses its fields.
pub open spec fn shape_of(fields: FieldListView) -> Shape {
    match fields {
        FieldListView::Named(_) => Shape::Braced,
        FieldListView::Positional(_) => Shape::Tuple,
        FieldListView::Empty => Shape::Empty,
    }
}

/// The body of the constructor for a field list.
pub open spec fn body_of(top: Option<Map<Seq<char>, Seq<char>>>, fields: FieldListView) -> BodyView {
    BodyView { shape: shape_of(fields), values: default_values(top, fields.members()) }
}

/// What is reported of a field list.
pub open spec fn body_diagnostics(
    top: Option<Map<Seq<char>, Seq<char>>>,
    fields: FieldListView,
) -> Seq<DiagnosticView> {
    fields_diagnostics(top, fields.members())
}

/// The view of what an annotation gives the field it stands on.
pub open spec fn answer_view(answer: Result<&String, Malformed>) -> Result<Seq<char>, Malformed> {
    match answer {
        Ok(value) => Ok(value@),
        Err(reason) => Err(reason),
    }
}

/// The view of what the annotations of a field give it.
pub open spec fn source_view(own: Option<(Location, Result<&String, Malformed>)>) -> Option<
    (Location, Result<Seq<char>, Malformed>),
> {
    match own {
        Some((location, answer)) => Some((location, answer_view(answer))),
        None => None,
    }
}

impl FieldList {
    /// The number of fields. An absent list has none.
    pub fn len(&self) -> (count: usize)
        ensures
            count == self@.len(),
    {
        match self {
            FieldList::Named(fields) => fields.len(),
            FieldList::Positional(fields) => fields.len(),
            FieldList::Empty => 0,
        }
    }

    /// The label, the identity and the field itself at position `index`, if the list reaches
    /// that far.
    pub fn member(&self, index: usize) -> (member: Option<(Option<&String>, String, &Field)>)
        ensures
            member is Some <==> index < self@.len(),
            member matches Some((label, identity, field)) ==> {
                &&& optional_view(label) == self@.member(index as int).label
                &&& identity@ == self@.member(index as int).identity
                &&& field@.ty == self@.member(index as int).ty
                &&& field@.annotations == self@.member(index as int).annotations
            },
    {
        match self {
            FieldList::Named(fields) => {
                if index < fields.len() {
                    assert(views(fields@)[index as int] == fields@[index as int]@);
                    Some((Some(&fields[index].name), fields[index].name.clone(), &fields[index].field))
                } else {
                    None
                }
            },
            FieldList::Positional(fields) => {
                if index < fields.len() {
                    assert(views(fields@)[index as int] == fields@[index as int]@);
                    Some((None, decimal(index), &fields[index]))
                } else {
                    None
                }
            },
            FieldList::Empty => None,
        }
    }
}

/// The label, the identity and the field itself at a position that the list reaches.
pub(crate) fn member_at(fields: &FieldList, index: usize) -> (member: (
    Option<&String>,
    String,
    &Field,
))
    requires
        index < fields@.len(),
    ensures
        optional_view(member.0) == fields@.member(index as int).label,
        member.1@ == fields@.member(index as int).identity,
        member.2@.ty == fields@.member(index as int).ty,
        member.2@.annotations == fields@.member(index as int).annotations,
{
    match fields.member(index) {
        Some(member) => member,
        None => vstd::pervasive::unreached(),
    }
}

/// What an annotation gives the field it stands on, `accepted` being the parser's answer on
/// its argument list.
pub fn own_expression(annotation: &Annotation, accepted: bool) -> (answer: Result<
    &String,
    Malformed,
>)
    ensures
        answer_view(answer) == own_answer(annotation@, accepted),
{
    match &annotation.form {
        ArgumentForm::List(text) => if accepted {
            Ok(text)
        } else {
            Err(Malformed::Expression)
        },
        _ => Err(Malformed::Form),
    }
}

/// The expression that asks the type `ty` for its own default.
pub fn fallback(ty: &str) -> (text: String)
    ensures
        text@ == fallback_expression(ty@),
{
    let mut text = "<".to_owned();
    text.append(ty);
    text.append(" as Default>::default()");
    text
}

/// Picks the expression of a field of type `ty` by precedence: the value from the field's own
/// annotation, else the value from the enclosing annotation, else the default of the type.
pub fn effective_expression(
    field_level: Option<&String>,
    top_level: Option<&String>,
    ty: &str,
) -> (text: String)
    ensures
        text@ == effective(optional_view(field_level), optional_view(top_level), ty@),
{
    match field_level {
        Some(value) => value.clone(),
        None => match top_level {
            Some(value) => value.clone(),
            None => fallback(ty),
        },
    }
}

/// Resolves one field of type `ty`. `own` is what the field's first default annotation gives,
/// with the place of that annotation: a value, or the fault for which it gives none.
/// `top_value` is what the enclosing annotation assigns to the field. The result is the value
/// by precedence; reported are the fault, or the conflict of the two values.
pub fn resolve_field(
    own: Option<(Location, Result<&String, Malformed>)>,
    top_value: Option<&String>,
    ty: &str,
    diagnostics: &mut Vec<Diagnostic>,
) -> (value: String)
    ensures
        value@ == effective(source_value(source_view(own)), optional_view(top_value), ty@),
        views(final(diagnostics)@) == views(old(diagnostics)@) + source_reports(
            source_view(own),
            optional_view(top_value),
        ),
{
    let ghost expected = views(diagnostics@) + source_reports(
        source_view(own),
        optional_view(top_value),
    );
    match own {
        None => {
            assert(views(diagnostics@) =~= expected);
            effective_expression(None, top_value, ty)
        },
        Some((location, Err(reason))) => {
            report(diagnostics, location, DiagnosticKind::MalformedArguments(reason));
            assert(views(diagnostics@) =~= expected);
            effective_expression(None, top_value, ty)
        },
        Some((location, Ok(value))) => {
            if top_value.is_some() {
                report(diagnostics, location, DiagnosticKind::ConflictingDefaultSource);
            }
            assert(views(diagnostics@) =~= expected);
            effective_expression(Some(value), top_value, ty)
        },
    }
}

/// Asks the parser about the argument list of an annotation, where it has one.
fn accepts(annotation: &Annotation) -> (accepted: bool)
    ensures
        own_answer(annotation@, accepted) == own_answer(
            annotation@,
            expression_syntax(argument_text(annotation@)),
        ),
{
    match &annotation.form {
        ArgumentForm::List(text) => is_expression(text.as_str()),
        _ => false,
    }
}

/// Resolves the value of each field, in declaration order, and reports what is wrong with the
/// fields' annotations. `top_values` is the map of the enclosing annotation, where the
/// record or variant has one.
pub fn get_field_default_values(
    top_values: Option<&OverrideMap>,
    fields: &FieldList,
    diagnostics: &mut Vec<Diagnostic>,
) -> (values: Vec<DefaultValue>)
    ensures
        views(values@) == default_values(optional_view(top_values), fields@.members()),
        views(final(diagnostics)@) == views(old(diagnostics)@) + fields_diagnostics(
            optional_view(top_values),
            fields@.members(),
        ),
{
    let ghost top = optional_view(top_values);
    let ghost all = fields@.members();
    let count = fields.len();
    let mut values: Vec<DefaultValue> = Vec::new();
    let mut i: usize = 0;
    assert(all.take(0) =~= Seq::<MemberView>::empty());
    assert(views(diagnostics@) + Seq::<DiagnosticView>::empty() =~= views(diagnostics@));
    while i < count
        invariant
            top == optional_view(top_values),
            all == fields@.members(),
            count == all.len(),
            i <= count,
            values.len() == i,
            forall|j: int| 0 <= j < i ==> (#[trigger] values@[j])@ == default_value(top, all[j]),
            views(diagnostics@) == views(old(diagnostics)@) + fields_diagnostics(
                top,
                all.take(i as int),
            ),
        decreases count - i,
    {
        let ghost before = views(diagnostics@);
        let ghost view = all[i as int];
        proof {
            assert(all.take(i as int + 1).drop_last() =~= all.take(i as int));
            assert(all.take(i as int + 1).last() == view);
        }
        let (label, key, field) = member_at(fields, i);
        let attr = find_attribute_unique(field.annotations.as_slice(), DEFAULT_IDENT, diagnostics);
        let own = match attr {
            Some(attr) => Some((attr.location, own_expression(attr, accepts(attr)))),
            None => None,
        };
        let top_value: Option<&String> = match top_values {
            Some(map) => map.get(key.as_str()),
            None => None,
        };
        assert(source_view(own) == own_source(view.annotations));
        assert(optional_view(top_value) == top_level_value(top, view.identity));
        let value = resolve_field(own, top_value, field.ty.as_str(), diagnostics);
        assert(views(diagnostics@) =~= before + field_diagnostics(top, view));
        let ident = match label {
            Some(name) => Some(name.clone()),
            None => None,
        };
        values.push(DefaultValue { ident, value });
        assert(views(diagnostics@) =~= views(old(diagnostics)@) + fields_diagnostics(
            top,
            all.take(i as int + 1),
        ));
        i += 1;
    }
    assert(all.take(i as int) =~= all);
    assert(views(values@) =~= default_values(top, all));
    values
}

/// Builds the body of the constructor for a field list. A type or variant without a field list
/// has an empty body, and nothing is read or reported.
pub fn derive_fields(
    top_values: Option<&OverrideMap>,
    fields: &FieldList,
    diagnostics: &mut Vec<Diagnostic>,
) -> (body: Body)
    ensures
        body@ == body_of(optional_view(top_values), fields@),
        views(final(diagnostics)@) == views(old(diagnostics)@) + body_diagnostics(
            optional_view(top_values),
            fields@,
        ),
{
    let shape = match fields {
        FieldList::Named(_) => Shape::Braced,
        FieldList::Positional(_) => Shape::Tuple,
        FieldList::Empty => Shape::Empty,
    };
    let values = get_field_default_values(top_values, fields, diagnostics);
    Body { shape, values }
}

} // verus!
