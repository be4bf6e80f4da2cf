//! The argument list `identity: expression, ..` of an annotation, read from its tokens.
//!
//! An identity is one token: an identifier or an unsigned integer literal. The expression after
//! the colon is the shortest run of tokens that is a complete expression and is followed by a
//! comma or by the end of the list. A comma after the last assignment is accepted.

use vstd::hash_map::StringHashMap;
use vstd::prelude::*;
use vstd::string::*;
use crate::diagnostics::{
    report, Diagnostic, DiagnosticKind, DiagnosticKindView, DiagnosticView, Malformed, SyntaxError,
};
use crate::model::{
    optional_view, views, Annotation, AnnotationView, ArgumentForm, ArgumentFormView, Location,
};
use crate::syntax::{
    expression_syntax, identifier_syntax, integer_literal_syntax, is_expression, is_identifier,
    is_integer_literal, lex, lexed, Token, TokenView,
};
use crate::text::{contains_text, same_text};

verus! {

/// How an assignment names its field.
#[derive(Clone, Debug, PartialEq, Eq)]
pub enum FieldName {
    Ident(String),
    IntLiteral(String),
}

pub enum FieldNameView {
    Ident(Seq<char>),
    IntLiteral(Seq<char>),
}

impl View for FieldName {
    type V = FieldNameView;

    open spec fn view(&self) -> FieldNameView {
        match *self {
            FieldName::Ident(text) => FieldNameView::Ident(text@),
            FieldName::IntLiteral(text) => FieldNameView::IntLiteral(text@),
        }
    }
}

impl FieldNameView {
    /// The identity as it is compared with the names of the fields.
    pub open spec fn text(self) -> Seq<char> {
        match self {
            FieldNameView::Ident(text) => text,
            FieldNameView::IntLiteral(text) => text,
        }
    }
}

/// Whether a text begins with a minus sign.
pub open spec fn signed(text: Seq<char>) -> bool {
    text.len() > 0 && text[0] == '-'
}

/// The identity that one token spells, if it spells one, `identifier` and `integer` being the
/// parser's answers on whether the token is an identifier and whether it is an integer literal.
pub open spec fn field_name_from(token: TokenView, identifier: bool, integer: bool) -> Option<
    FieldNameView,
> {
    if identifier {
        Some(FieldNameView::Ident(token.text))
    } else if integer && !signed(token.text) {
        Some(FieldNameView::IntLiteral(token.text))
    } else {
        None
    }
}

/// The identity that one token spells, if it spells one.
pub open spec fn field_name_of(token: TokenView) -> Option<FieldNameView> {
    field_name_from(
        token,
        identifier_syntax(token.text),
        integer_literal_syntax(token.text),
    )
}

fn is_signed(text: &str) -> (answer: bool)
    ensures
        answer == signed(text@),
{
    text.unicode_len() > 0 && text.get_char(0) == '-'
}

impl FieldName {
    /// The identity as it is compared with the names of the fields.
    pub fn to_string(&self) -> (text: String)
        ensures
            text@ == self@.text(),
    {
        match self {
            FieldName::Ident(text) => text.clone(),
            FieldName::IntLiteral(text) => text.clone(),
        }
    }

    /// The identity that one token spells, if it spells one, `identifier` and `integer` being
    /// the parser's answers on whether the token is an identifier and whether it is an integer
    /// literal. An identifier is taken as it is; an integer literal unless it has a sign.
    pub fn from_answers(token: &Token, identifier: bool, integer: bool) -> (name: Option<FieldName>)
        ensures
            optional_view(name) == field_name_from(token@, identifier, integer),
    {
        if identifier {
            Some(FieldName::Ident(token.text.clone()))
        } else if integer && !is_signed(token.text.as_str()) {
            Some(FieldName::IntLiteral(token.text.clone()))
        } else {
            None
        }
    }

    /// Reads an identity from one token.
    pub fn parse(token: &Token) -> (name: Option<FieldName>)
        ensures
            optional_view(name) == field_name_of(token@),
    {
        let identifier = is_identifier(token.text.as_str());
        let integer = !identifier && is_integer_literal(token.text.as_str());
        FieldName::from_answers(token, identifier, integer)
    }
}

/// One assignment of an argument list.
#[derive(Clone, Debug, PartialEq, Eq)]
pub struct FieldAssign {
    pub ident: FieldName,
    pub value: String,
}

pub struct FieldAssignView {
    pub ident: FieldNameView,
    pub value: Seq<char>,
}

impl View for FieldAssign {
    type V = FieldAssignView;

    open spec fn view(&self) -> FieldAssignView {
        FieldAssignView { ident: self.ident@, value: self.value@ }
    }
}

/// What separates a token from the next one in a text.
pub open spec fn separator(token: TokenView) -> Seq<char> {
    if token.joint {
        Seq::empty()
    } else {
        " "@
    }
}

/// The text of a run of tokens: the tokens' texts in order, with one space between two of them
/// unless the first is joint.
pub open spec fn rendered(tokens: Seq<TokenView>) -> Seq<char>
    decreases tokens.len(),
{
    if tokens.len() == 0 {
        Seq::empty()
    } else if tokens.len() == 1 {
        tokens[0].text
    } else {
        rendered(tokens.drop_last()) + separator(tokens[tokens.len() - 2]) + tokens.last().text
    }
}

/// Whether an expression that begins at token `start` may end before token `end`, `accepted`
/// being the parser's answer on whether the tokens between are an expression: they are one, and
/// a comma or the end of the list follows.
pub open spec fn ends_given(tokens: Seq<TokenView>, start: int, end: int, accepted: bool) -> bool {
    &&& 0 <= start <= end <= tokens.len()
    &&& (end == tokens.len() || tokens[end].text == ","@)
    &&& accepted
}

/// Whether the tokens from `start` up to `end` are an expression that ends where an assignment
/// may end.
pub open spec fn ends_expression(tokens: Seq<TokenView>, start: int, end: int) -> bool {
    ends_given(tokens, start, end, expression_syntax(rendered(tokens.subrange(start, end))))
}

/// The first position from `from` on at which the expression that begins at `start` may end.
pub open spec fn expression_end(tokens: Seq<TokenView>, start: int, from: int) -> Option<int>
    decreases tokens.len() + 1 - from,
{
    if from > tokens.len() {
        None
    } else if ends_expression(tokens, start, from) {
        Some(from)
    } else {
        expression_end(tokens, start, from + 1)
    }
}

/// The position that the search finds is one at which the expression may end, and the first
/// such from `from` on; the search finds none only where there is none.
pub proof fn lemma_expression_end_is_first(tokens: Seq<TokenView>, start: int, from: int)
    ensures
        match expression_end(tokens, start, from) {
            Some(end) => from <= end <= tokens.len() && ends_expression(tokens, start, end)
                && forall|earlier: int|
                from <= earlier < end ==> !ends_expression(tokens, start, earlier),
            None => forall|end: int| from <= end ==> !ends_expression(tokens, start, end),
        },
    decreases tokens.len() + 1 - from,
{
    if from <= tokens.len() && !ends_expression(tokens, start, from) {
        lemma_expression_end_is_first(tokens, start, from + 1);
    }
}

/// The assignment that three findings make up, with the position at which its expression
/// ends: the identity that the first token spells, whether a colon follows it, and the end and
/// the text of the expression after the colon. What is missing first decides the failure.
pub open spec fn entry_from(
    ident: Option<FieldNameView>,
    colon: bool,
    extent: Option<(int, Seq<char>)>,
) -> Result<(FieldAssignView, int), Malformed> {
    match ident {
        None => Err(Malformed::Identity),
        Some(ident) => if !colon {
            Err(Malformed::Colon)
        } else {
            match extent {
                None => Err(Malformed::Expression),
                Some((end, value)) => Ok((FieldAssignView { ident, value }, end)),
            }
        },
    }
}

/// The end and the text of the expression that begins at token `start`, if one does.
pub open spec fn extent_at(tokens: Seq<TokenView>, start: int) -> Option<(int, Seq<char>)> {
    match expression_end(tokens, start, start) {
        Some(end) => Some((end, rendered(tokens.subrange(start, end)))),
        None => None,
    }
}

/// The assignment that begins at token `at`, with the position at which its expression ends.
pub open spec fn entry_at(tokens: Seq<TokenView>, at: int) -> Result<(FieldAssignView, int), Malformed> {
    if !(0 <= at < tokens.len()) {
        Err(Malformed::Identity)
    } else {
        entry_from(
            field_name_of(tokens[at]),
            at + 1 < tokens.len() && tokens[at + 1].text == ":"@,
            extent_at(tokens, at + 2),
        )
    }
}

/// The view of the end and the text of an expression.
pub open spec fn extent_view(extent: Option<(usize, String)>) -> Option<(int, Seq<char>)> {
    match extent {
        Some((end, text)) => Some((end as int, text@)),
        None => None,
    }
}

/// Puts `first` before the assignments of `rest`, and lets a failure through.
pub open spec fn prepend(
    first: Seq<FieldAssignView>,
    rest: Result<Seq<FieldAssignView>, SyntaxError>,
) -> Result<Seq<FieldAssignView>, SyntaxError> {
    match rest {
        Ok(rest) => Ok(first + rest),
        Err(error) => Err(error),
    }
}

/// The assignments from token `at` on, `index` of them having been read before.
pub open spec fn entries_from(tokens: Seq<TokenView>, at: int, index: nat) -> Result<
    Seq<FieldAssignView>,
    SyntaxError,
>
    decreases tokens.len() + 1 - at,
{
    if !(0 <= at < tokens.len()) {
        Ok(Seq::empty())
    } else {
        match entry_at(tokens, at) {
            Err(reason) => Err(SyntaxError { entry: Some(index as usize), reason }),
            Ok((assignment, end)) => {
                proof {
                    lemma_expression_end_is_first(tokens, at + 2, at + 2);
                }
                prepend(seq![assignment], entries_from(tokens, end + 1, index + 1))
            },
        }
    }
}

/// The assignments that an argument list holds, or why it holds none.
pub open spec fn parsed_assignments(text: Seq<char>) -> Result<Seq<FieldAssignView>, SyntaxError> {
    match lexed(text) {
        None => Err(SyntaxError { entry: None, reason: Malformed::Tokens }),
        Some(tokens) => entries_from(tokens, 0, 0),
    }
}

/// The view of what reading one assignment gave.
pub open spec fn entry_view(parsed: Result<(FieldAssign, usize), Malformed>) -> Result<
    (FieldAssignView, int),
    Malformed,
> {
    match parsed {
        Ok((assignment, end)) => Ok((assignment@, end as int)),
        Err(reason) => Err(reason),
    }
}

/// The view of what a run of the parser gave.
pub open spec fn parse_view(parsed: Result<Vec<FieldAssign>, SyntaxError>) -> Result<
    Seq<FieldAssignView>,
    SyntaxError,
> {
    match parsed {
        Ok(list) => Ok(views(list@)),
        Err(error) => Err(error),
    }
}

/// Whether an expression that begins at token `start` may end before token `end`, `accepted`
/// being the parser's answer on whether the tokens between are an expression.
pub fn may_end(tokens: &Vec<Token>, start: usize, end: usize, accepted: bool) -> (ends: bool)
    ensures
        ends == ends_given(views(tokens@), start as int, end as int, accepted),
{
    if start <= end && end <= tokens.len() {
        let follows = end == tokens.len() || same_text(tokens[end].text.as_str(), ",");
        follows && accepted
    } else {
        false
    }
}

/// The text of the first `count` tokens from `start` on, made from the text of one token fewer.
fn extend(text: &mut String, tokens: &Vec<Token>, start: usize, count: usize)
    requires
        start + count < tokens.len(),
        old(text)@ == rendered(views(tokens@).subrange(start as int, start + count)),
    ensures
        final(text)@ == rendered(views(tokens@).subrange(start as int, start + count + 1)),
{
    let ghost all = views(tokens@);
    let k = start + count;
    proof {
        let before = all.subrange(start as int, k as int);
        let after = all.subrange(start as int, k as int + 1);
        assert(after.drop_last() =~= before);
        assert(after.last() == all[k as int]);
        if count > 0 {
            assert(after[after.len() - 2] == all[k as int - 1]);
            if all[k as int - 1].joint {
                assert(rendered(before) + Seq::<char>::empty() =~= rendered(before));
            }
        } else {
            assert(text@ + all[k as int].text =~= all[k as int].text);
        }
    }
    if count > 0 && !tokens[k - 1].joint {
        text.append(" ");
    }
    text.append(tokens[k].text.as_str());
}

/// Finds where the expression that begins at token `start` ends, and renders it. The parser is
/// asked only about the runs that a comma or the end of the list follows.
fn expression_extent(tokens: &Vec<Token>, start: usize) -> (found: Option<(usize, String)>)
    requires
        start <= tokens.len(),
    ensures
        match found {
            Some((end, text)) => expression_end(views(tokens@), start as int, start as int)
                == Some(end as int) && start <= end <= tokens.len() && text@ == rendered(
                views(tokens@).subrange(start as int, end as int),
            ),
            None => expression_end(views(tokens@), start as int, start as int) is None,
        },
{
    let ghost all = views(tokens@);
    let mut text = String::new();
    let mut k: usize = start;
    loop
        invariant
            all == views(tokens@),
            start <= k <= tokens.len(),
            text@ == rendered(all.subrange(start as int, k as int)),
            expression_end(all, start as int, start as int) == expression_end(
                all,
                start as int,
                k as int,
            ),
        decreases tokens.len() - k,
    {
        let asked = may_end(tokens, start, k, true);
        let accepted = asked && is_expression(text.as_str());
        if may_end(tokens, start, k, accepted) {
            return Some((k, text));
        }
        if k == tokens.len() {
            assert(expression_end(all, start as int, k as int + 1) is None);
            return None;
        }
        extend(&mut text, tokens, start, k - start);
        k += 1;
    }
}

impl FieldAssign {
    /// Makes an assignment of three findings: the identity that the first token spells, whether
    /// a colon follows it, and the end and the text of the expression after the colon. What is
    /// missing first decides the failure.
    pub fn from_findings(ident: Option<FieldName>, colon: bool, extent: Option<(usize, String)>) -> (parsed:
        Result<(FieldAssign, usize), Malformed>)
        ensures
            entry_view(parsed) == entry_from(optional_view(ident), colon, extent_view(extent)),
    {
        match ident {
            None => Err(Malformed::Identity),
            Some(ident) => {
                if !colon {
                    return Err(Malformed::Colon);
                }
                match extent {
                    None => Err(Malformed::Expression),
                    Some((end, value)) => Ok((FieldAssign { ident, value }, end)),
                }
            },
        }
    }

    /// Reads the assignment that begins at token `at`, and says where its expression ends.
    pub fn parse(tokens: &Vec<Token>, at: usize) -> (parsed: Result<(FieldAssign, usize), Malformed>)
        ensures
            entry_view(parsed) == entry_at(views(tokens@), at as int),
            parsed matches Ok((_, end)) ==> at + 2 <= end <= tokens.len(),
    {
        if at >= tokens.len() {
            return Err(Malformed::Identity);
        }
        let ident = FieldName::parse(&tokens[at]);
        let colon = at + 1 < tokens.len() && same_text(tokens[at + 1].text.as_str(), ":");
        let extent = if ident.is_some() && colon {
            expression_extent(tokens, at + 2)
        } else {
            None
        };
        FieldAssign::from_findings(ident, colon, extent)
    }
}

/// Reads assignments, each but the last followed by a comma, until the tokens are used up.
pub fn parse_terminated(tokens: &Vec<Token>) -> (parsed: Result<Vec<FieldAssign>, SyntaxError>)
    ensures
        parse_view(parsed) == entries_from(views(tokens@), 0, 0),
{
    let ghost all = views(tokens@);
    let mut list: Vec<FieldAssign> = Vec::new();
    let mut at: usize = 0;
    while at < tokens.len()
        invariant
            all == views(tokens@),
            at <= tokens.len(),
            list.len() <= at,
            entries_from(all, 0, 0) == prepend(
                views(list@),
                entries_from(all, at as int, list.len() as nat),
            ),
        decreases tokens.len() - at,
    {
        match FieldAssign::parse(tokens, at) {
            Err(reason) => {
                return Err(SyntaxError { entry: Some(list.len()), reason });
            },
            Ok((assignment, end)) => {
                proof {
                    let rest = entries_from(all, end as int + 1, list.len() as nat + 1);
                    crate::text::lemma_views_push(list@, assignment);
                    match rest {
                        Ok(rest) => {
                            assert(views(list@) + (seq![assignment@] + rest) =~= views(list@).push(
                                assignment@,
                            ) + rest);
                        },
                        Err(_) => {},
                    }
                }
                list.push(assignment);
                if end >= tokens.len() {
                    assert(views(list@) + Seq::<FieldAssignView>::empty() =~= views(list@));
                    return Ok(list);
                }
                at = end + 1;
            },
        }
    }
    assert(views(list@) + Seq::<FieldAssignView>::empty() =~= views(list@));
    Ok(list)
}

/// Reads the argument list of an annotation into its assignments, in the order written.
pub fn parse_assignments(text: &str) -> (parsed: Result<Vec<FieldAssign>, SyntaxError>)
    ensures
        parse_view(parsed) == parsed_assignments(text@),
{
    match lex(text) {
        None => Err(SyntaxError { entry: None, reason: Malformed::Tokens }),
        Some(tokens) => parse_terminated(&tokens),
    }
}

/// The assignments that the arguments of an annotation hold, where they can be read.
pub open spec fn arguments(attr: AnnotationView) -> Option<Seq<FieldAssignView>> {
    match attr.form {
        ArgumentFormView::List(text) => match parsed_assignments(text) {
            Ok(assignments) => Some(assignments),
            Err(_) => None,
        },
        _ => None,
    }
}

/// Where a failure to read the argument list of the annotation at `location` is reported: at
/// the assignment in which it lies, or else at the annotation.
pub open spec fn syntax_location(location: Location, error: SyntaxError) -> Location {
    match error.entry {
        Some(entry) => Location { node: location.node, entry: Some(entry) },
        None => location,
    }
}

/// One diagnostic for arguments that are malformed.
pub open spec fn malformed(location: Location, reason: Malformed) -> Seq<DiagnosticView> {
    seq![DiagnosticView { location, kind: DiagnosticKindView::MalformedArguments(reason) }]
}

/// What is reported of the arguments of an annotation that may hold assignments. A bare
/// annotation is in order unless `require_list` holds; an assigned value never is.
pub open spec fn argument_diagnostics(attr: AnnotationView, require_list: bool) -> Seq<
    DiagnosticView,
> {
    match attr.form {
        ArgumentFormView::Bare => if require_list {
            malformed(attr.location, Malformed::Form)
        } else {
            Seq::empty()
        },
        ArgumentFormView::NameValue(_) => malformed(attr.location, Malformed::Form),
        ArgumentFormView::List(text) => match parsed_assignments(text) {
            Ok(_) => Seq::empty(),
            Err(error) => malformed(syntax_location(attr.location, error), error.reason),
        },
    }
}

/// The view of assignments that may be absent.
pub open spec fn assignments_view(assignments: Option<Vec<FieldAssign>>) -> Option<
    Seq<FieldAssignView>,
> {
    match assignments {
        Some(list) => Some(views(list@)),
        None => None,
    }
}

/// Reads the arguments of an annotation into assignments. There are none where the annotation
/// is bare, which is reported only if `require_list` holds; where it assigns a value, which is
/// always reported; and where the argument list cannot be read, which is reported at the
/// assignment that could not.
pub fn parse_arguments(
    attr: &Annotation,
    require_list: bool,
    diagnostics: &mut Vec<Diagnostic>,
) -> (assignments: Option<Vec<FieldAssign>>)
    ensures
        assignments_view(assignments) == arguments(attr@),
        views(final(diagnostics)@) == views(old(diagnostics)@) + argument_diagnostics(
            attr@,
            require_list,
        ),
{
    let ghost expected = views(diagnostics@) + argument_diagnostics(attr@, require_list);
    match &attr.form {
        ArgumentForm::Bare => {
            if require_list {
                report(
                    diagnostics,
                    attr.location,
                    DiagnosticKind::MalformedArguments(Malformed::Form),
                );
            }
            assert(views(diagnostics@) =~= expected);
            None
        },
        ArgumentForm::NameValue(_) => {
            report(diagnostics, attr.location, DiagnosticKind::MalformedArguments(Malformed::Form));
            assert(views(diagnostics@) =~= expected);
            None
        },
        ArgumentForm::List(text) => match parse_assignments(text.as_str()) {
            Ok(punctuated) => {
                assert(views(diagnostics@) =~= expected);
                Some(punctuated)
            },
            Err(error) => {
                let at = match error.entry {
                    Some(entry) => Location { node: attr.location.node, entry: Some(entry) },
                    None => attr.location,
                };
                report(diagnostics, at, DiagnosticKind::MalformedArguments(error.reason));
                assert(views(diagnostics@) =~= expected);
                None
            },
        },
    }
}

/// The expressions that an annotation assigns to the fields of the enclosing list, by the
/// fields' identities.
pub struct OverrideMap {
    map: StringHashMap<String>,
}

impl View for OverrideMap {
    type V = Map<Seq<char>, Seq<char>>;

    closed spec fn view(&self) -> Map<Seq<char>, Seq<char>> {
        self.map@.map_values(|value: String| value@)
    }
}

impl OverrideMap {
    /// A map without entries.
    pub fn new() -> (map: OverrideMap)
        ensures
            map@ == Map::<Seq<char>, Seq<char>>::empty(),
    {
        let map = OverrideMap { map: StringHashMap::new() };
        assert(map@ =~= Map::<Seq<char>, Seq<char>>::empty());
        map
    }

    /// The number of fields that have an expression.
    pub fn len(&self) -> (count: usize)
        ensures
            count == self@.len(),
    {
        assert(self@.dom() =~= self.map@.dom());
        self.map.len()
    }

    /// Whether the field of this identity has an expression.
    pub fn contains_key(&self, key: &str) -> (found: bool)
        ensures
            found == self@.contains_key(key@),
    {
        self.map.contains_key(key)
    }

    /// The expression of the field of this identity.
    pub fn get(&self, key: &str) -> (value: Option<&String>)
        ensures
            match value {
                Some(value) => self@.contains_key(key@) && value@ == self@[key@],
                None => !self@.contains_key(key@),
            },
    {
        self.map.get(key)
    }

    /// Gives the field of this identity an expression, in place of the one it had.
    pub fn insert(&mut self, key: String, value: String)
        ensures
            final(self)@ == old(self)@.insert(key@, value@),
    {
        self.map.insert(key, value);
        assert(self@ =~= old(self)@.insert(key@, value@));
    }
}

/// Where the assignment at `entry` of the annotation at `location` stands.
pub open spec fn entry_location(location: Location, entry: int) -> Location {
    Location { node: location.node, entry: Some(entry as usize) }
}

/// The map that a list of assignments gives over a list of field identities: of the assignments
/// to one known field the first counts, and an assignment to an unknown field counts for
/// nothing.
pub open spec fn overrides(assignments: Seq<FieldAssignView>, names: Seq<Seq<char>>) -> Map<
    Seq<char>,
    Seq<char>,
>
    decreases assignments.len(),
{
    if assignments.len() == 0 {
        Map::empty()
    } else {
        let earlier = overrides(assignments.drop_last(), names);
        let key = assignments.last().ident.text();
        if names.contains(key) && !earlier.contains_key(key) {
            earlier.insert(key, assignments.last().value)
        } else {
            earlier
        }
    }
}

/// What is reported of the last assignment of a list, if anything.
pub open spec fn assignment_diagnostics(
    assignments: Seq<FieldAssignView>,
    names: Seq<Seq<char>>,
    location: Location,
) -> Seq<DiagnosticView>
    recommends
        assignments.len() > 0,
{
    let key = assignments.last().ident.text();
    let at = entry_location(location, assignments.len() - 1);
    if !names.contains(key) {
        seq![DiagnosticView { location: at, kind: DiagnosticKindView::UnknownField(key) }]
    } else if overrides(assignments.drop_last(), names).contains_key(key) {
        seq![DiagnosticView { location: at, kind: DiagnosticKindView::DuplicateFieldAssignment }]
    } else {
        Seq::empty()
    }
}

/// What is reported of a list of assignments, in their order.
pub open spec fn override_diagnostics(
    assignments: Seq<FieldAssignView>,
    names: Seq<Seq<char>>,
    location: Location,
) -> Seq<DiagnosticView>
    decreases assignments.len(),
{
    if assignments.len() == 0 {
        Seq::empty()
    } else {
        override_diagnostics(assignments.drop_last(), names, location) + assignment_diagnostics(
            assignments,
            names,
            location,
        )
    }
}

/// Builds the override map of an annotation at `location` from its assignments. An assignment
/// to a field that `field_names` does not hold is reported and skipped; so is one to a field
/// that an earlier assignment named.
pub fn parse_punctuated_unique(
    punctuated: Vec<FieldAssign>,
    field_names: &[String],
    location: Location,
    diagnostics: &mut Vec<Diagnostic>,
) -> (map: OverrideMap)
    ensures
        map@ == overrides(views(punctuated@), views(field_names@)),
        views(final(diagnostics)@) == views(old(diagnostics)@) + override_diagnostics(
            views(punctuated@),
            views(field_names@),
            location,
        ),
{
    let ghost all = views(punctuated@);
    let ghost names = views(field_names@);
    let mut map = OverrideMap::new();
    let mut i: usize = 0;
    assert(all.take(0) =~= Seq::<FieldAssignView>::empty());
    assert(views(diagnostics@) + Seq::<DiagnosticView>::empty() =~= views(diagnostics@));
    while i < punctuated.len()
        invariant
            all == views(punctuated@),
            names == views(field_names@),
            i <= punctuated.len(),
            map@ == overrides(all.take(i as int), names),
            views(diagnostics@) == views(old(diagnostics)@) + override_diagnostics(
                all.take(i as int),
                names,
                location,
            ),
        decreases punctuated.len() - i,
    {
        let ghost before = views(diagnostics@);
        let ghost prefix = all.take(i as int + 1);
        assert(prefix.drop_last() =~= all.take(i as int));
        assert(prefix.last() == punctuated@[i as int]@);
        let key = punctuated[i].ident.to_string();
        let at = Location { node: location.node, entry: Some(i) };
        if !contains_text(field_names, key.as_str()) {
            report(diagnostics, at, DiagnosticKind::UnknownField(key));
        } else if map.contains_key(key.as_str()) {
            report(diagnostics, at, DiagnosticKind::DuplicateFieldAssignment);
        } else {
            map.insert(key, punctuated[i].value.clone());
        }
        assert(views(diagnostics@) =~= before + assignment_diagnostics(prefix, names, location));
        assert(views(diagnostics@) =~= views(old(diagnostics)@) + override_diagnostics(
            prefix,
            names,
            location,
        ));
        i += 1;
    }
    assert(all.take(i as int) =~= all);
    map
}

} // verus!
