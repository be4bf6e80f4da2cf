//! What the library asks of the Rust lexer and parser: the tokens of a text, and whether a text
//! is an identifier, an integer literal or an expression. Nothing here is proved; each item says
//! which outside function it stands for.

use vstd::prelude::*;

verus! {

/// One token tree at the top level of a text: a group with all it encloses, an identifier, a
/// literal or one punctuation character. `joint` holds for a punctuation character that is
/// immediately followed by another one, as the first of `::` is.
#[derive(Clone, Debug, PartialEq, Eq)]
pub struct Token {
    pub text: String,
    pub joint: bool,
}

pub struct TokenView {
    pub text: Seq<char>,
    pub joint: bool,
}

impl View for Token {
    type V = TokenView;

    open spec fn view(&self) -> TokenView {
        TokenView { text: self.text@, joint: self.joint }
    }
}

/// The top-level token trees of `text`, or `None` where `text` is no sequence of tokens.
pub uninterp spec fn lexed(text: Seq<char>) -> Option<Seq<TokenView>>;

/// Whether `text` is one identifier that is not a keyword.
pub uninterp spec fn identifier_syntax(text: Seq<char>) -> bool;

/// Whether `text` is one integer literal.
pub uninterp spec fn integer_literal_syntax(text: Seq<char>) -> bool;

/// Whether `text` is one complete expression.
pub uninterp spec fn expression_syntax(text: Seq<char>) -> bool;

/// The views of lexed tokens.
pub open spec fn token_views(tokens: Option<Vec<Token>>) -> Option<Seq<TokenView>> {
    match tokens {
        Some(tokens) => Some(crate::model::views(tokens@)),
        None => None,
    }
}

/// `proc_macro2::TokenStream::from_str`, each token tree of the result rendered by its
/// `to_string`, with `Punct::spacing` for `joint`. The contract only names the result: the same
/// text always lexes to the same tokens.
#[verifier::external_body]
pub(crate) fn lex(text: &str) -> (tokens: Option<Vec<Token>>)
    ensures
        token_views(tokens) == lexed(text@),
{
    let stream = text.parse::<proc_macro2::TokenStream>().ok()?;
    Some(stream.into_iter().map(|tree| Token {
        joint: match &tree {
            proc_macro2::TokenTree::Punct(punct) => match punct.spacing() {
                proc_macro2::Spacing::Joint => true,
                proc_macro2::Spacing::Alone => false,
            },
            proc_macro2::TokenTree::Group(_) => false,
            proc_macro2::TokenTree::Ident(_) => false,
            proc_macro2::TokenTree::Literal(_) => false,
        },
        text: tree.to_string(),
    }).collect())
}

/// `syn::parse_str::<syn::Ident>`: success means that `text` is a single identifier other than a
/// keyword. The contract only names the result.
#[verifier::external_body]
pub(crate) fn is_identifier(text: &str) -> (accepted: bool)
    ensures
        accepted == identifier_syntax(text@),
{
    syn::parse_str::<syn::Ident>(text).is_ok()
}

/// `syn::parse_str::<syn::LitInt>`: success means that `text` is a single integer literal. The
/// contract only names the result.
#[verifier::external_body]
pub(crate) fn is_integer_literal(text: &str) -> (accepted: bool)
    ensures
        accepted == integer_literal_syntax(text@),
{
    syn::parse_str::<syn::LitInt>(text).is_ok()
}

/// `syn::parse_str::<syn::Expr>`: success means that the whole of `text` is one expression. The
/// contract only names the result.
#[verifier::external_body]
pub(crate) fn is_expression(text: &str) -> (accepted: bool)
    ensures
        accepted == expression_syntax(text@),
{
    syn::parse_str::<syn::Expr>(text).is_ok()
}

} // verus!
