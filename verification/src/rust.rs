//! What the parser of Rust's own syntax says of a type and of a generic
//! parameter. The grammar of a declaration stops at these two: what is a
//! type of Rust, and what kind of generic parameter a text is, is decided
//! by `syn`. Nothing is stated of its answers: `syn` has the text lexed by
//! `proc_macro2`, which inside a procedural macro hands it to the
//! compiler's lexer and elsewhere lexes it itself, so the answer is not a
//! function of the text alone.
use vstd::prelude::*;

use crate::token::{kinds_of, lex, TokenKind};

verus! {

/// How much nesting a type or a generic parameter may have, by its
/// weight. The parser of Rust's syntax calls itself for what is nested, and
/// each level of nesting takes a token that weighs, so this bounds how
/// deep it goes; lists, however long, it reads in a loop.
pub const NESTING_LIMIT: usize = 32;

/// Whether a token of kind `k` is a word, a number or a region name.
pub open spec fn is_wordlike(k: TokenKind) -> bool {
    k == TokenKind::Ident || k == TokenKind::Literal || k == TokenKind::Lifetime
}

/// Whether the punctuation `c` only separates or closes, and so opens no
/// level of nesting: `,`, `:`, `+` and the closing brackets.
pub open spec fn is_light(c: char) -> bool {
    c == ',' || c == ':' || c == '+' || c == ')' || c == ']' || c == '}' || c == '>'
}

/// Whether the `k`-th token can open a level of nesting: a punctuation
/// that is not light, or a word, number or region name that directly
/// follows another, as a keyword in front of what it applies to does.
pub open spec fn weighs(ks: Seq<TokenKind>, k: int) -> bool {
    match ks[k] {
        TokenKind::Punct(c) => !is_light(c),
        _ => k > 0 && is_wordlike(ks[k - 1]),
    }
}

/// How many tokens of `ks` can open a level of nesting.
pub open spec fn weight(ks: Seq<TokenKind>) -> nat
    decreases ks.len(),
{
    if ks.len() == 0 {
        0
    } else {
        weight(ks.drop_last()) + if weighs(ks, ks.len() - 1) {
            1nat
        } else {
            0nat
        }
    }
}

/// Whether `text` lexes, into tokens that weigh at most `limit`.
pub open spec fn nests_within(text: Seq<char>, limit: int) -> bool {
    lex(text) matches Ok(toks) && weight(kinds_of(toks)) <= limit
}

/// What was found out of a generic parameter.
#[derive(Debug)]
pub enum ParamShape {
    /// The text is no generic parameter.
    Rejected,
    /// A region parameter; the name is without the quote.
    Region(String),
    /// A type or a const parameter.
    Plain,
}

impl View for ParamShape {
    type V = Option<Option<Seq<char>>>;

    open spec fn view(&self) -> Option<Option<Seq<char>>> {
        match self {
            ParamShape::Rejected => None,
            ParamShape::Region(name) => Some(Some(name@)),
            ParamShape::Plain => Some(None),
        }
    }
}

/// Calls `syn::parse_str::<syn::Type>` on `text` and says whether it
/// succeeded. Nothing is claimed of the answer. The parser recurses on what
/// is nested and can exhaust the stack on a text that nests deeply, so the
/// text is required to nest little.
#[verifier::external_body]
pub(crate) fn is_rust_type(text: &str) -> (ok: bool)
    requires
        nests_within(text@, NESTING_LIMIT as int),
{
    syn::parse_str::<syn::Type>(text).is_ok()
}

/// Calls `syn::parse_str::<syn::GenericParam>` on `text` and tells its
/// outcomes apart: an error, a lifetime parameter, of which the name of
/// the lifetime is kept (`lifetime.ident`, which `syn` holds without the
/// quote), or another parameter. Nothing is claimed of the answer. The
/// parser recurses on what is nested and can exhaust the stack on a text
/// that nests deeply, so the text is required to nest little.
#[verifier::external_body]
pub(crate) fn generic_param_shape(text: &str) -> (shape: ParamShape)
    requires
        nests_within(text@, NESTING_LIMIT as int),
{
    match syn::parse_str::<syn::GenericParam>(text) {
        Ok(syn::GenericParam::Lifetime(l)) => ParamShape::Region(l.lifetime.ident.to_string()),
        Ok(_) => ParamShape::Plain,
        Err(_) => ParamShape::Rejected,
    }
}

} // verus!
