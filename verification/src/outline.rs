//! The grammar of one declaration, over tokens: where its parts stand.
//!
//! ```text
//! declaration := annotation* "impl" generics operation "for"
//!                "[" type ("," type)* "]" symbol "[" type ("," type)* "]"
//! annotation  := "#" "[" name "]" | "#" "[" name "(" flag ")" "]"
//! generics    := "<" param ("," param)* ">" | nothing
//! ```
//!
//! A type and a generic parameter are runs of tokens between separators
//! that stand outside of brackets and angle brackets.
use vstd::prelude::*;

use crate::diagnostic::{Diagnostic, ErrorCode, Operation, Span};
use crate::rust::{nests_within, weighs, weight, NESTING_LIMIT};
use crate::sequence::{
    angle_close, bracket_close, find_angle_close, find_bracket_close, find_operation_break,
    find_symbol_break, operation_break, separated, split, symbol_break, word_at, Piece,
};
use crate::token::{kinds_of, Input, Source, Token, TokenKind};

verus! {

/// Where the parts of a declaration stand in the source.
#[derive(Debug)]
pub struct Outline {
    /// The keyword `impl`.
    pub impl_token: Span,
    /// The generic parameter list from `<` to `>`; where there is none, the
    /// position after `impl`.
    pub generics: Span,
    /// The generic parameters.
    pub params: Vec<Span>,
    /// The identifier of the operation.
    pub trait_: Span,
    /// The keyword `for`.
    pub for_: Span,
    /// The left type list from `[` to `]`.
    pub bracket1: Span,
    /// The left types.
    pub lhs: Vec<Span>,
    /// The symbol of the operation.
    pub symbol: Span,
    /// The right type list from `[` to `]`.
    pub bracket2: Span,
    /// The right types.
    pub rhs: Vec<Span>,
}

/// The model of an [`Outline`].
pub struct OutlineView {
    pub impl_token: Span,
    pub generics: Span,
    pub params: Seq<Span>,
    pub trait_: Span,
    pub for_: Span,
    pub bracket1: Span,
    pub lhs: Seq<Span>,
    pub symbol: Span,
    pub bracket2: Span,
    pub rhs: Seq<Span>,
}

impl View for Outline {
    type V = OutlineView;

    open spec fn view(&self) -> OutlineView {
        OutlineView {
            impl_token: self.impl_token,
            generics: self.generics,
            params: self.params@,
            trait_: self.trait_,
            for_: self.for_,
            bracket1: self.bracket1,
            lhs: self.lhs@,
            symbol: self.symbol,
            bracket2: self.bracket2,
            rhs: self.rhs@,
        }
    }
}

/// Whether `span` is a range of the first `n` characters.
pub open spec fn span_within(span: Span, n: int) -> bool {
    span.start <= span.end <= n
}

/// Whether every span of `spans` is a range of the first `n` characters.
pub open spec fn spans_within(spans: Seq<Span>, n: int) -> bool {
    forall|k: int| 0 <= k < spans.len() ==> span_within(#[trigger] spans[k], n)
}

/// The source range of the tokens of a piece that is not empty.
pub open spec fn span_of(toks: Seq<Token>, p: Piece) -> Span {
    Span { start: toks[p.lo as int].span.start, end: toks[p.hi - 1].span.end }
}

/// Whether the text at each span of `spans` lexes by itself, and nests no
/// deeper than a type or a generic parameter may.
pub open spec fn spans_shallow(src: Source, spans: Seq<Span>) -> bool {
    forall|k: int|
        0 <= k < spans.len() ==> nests_within(src.word(#[trigger] spans[k]), NESTING_LIMIT as int)
}

/// How much the tokens of a piece weigh.
pub open spec fn piece_weight(toks: Seq<Token>, p: Piece) -> nat {
    weight(kinds_of(toks.subrange(p.lo as int, p.hi as int)))
}

/// The source ranges of `pieces`, each of which must hold a token, and
/// nest no deeper than a type or a generic parameter may: the first empty
/// one is an error `code` at the token that stands where the piece should,
/// the first that nests too deep an error at the piece.
pub open spec fn fragment_spans(toks: Seq<Token>, pieces: Seq<Piece>, code: ErrorCode) -> Result<
    Seq<Span>,
    Diagnostic,
>
    decreases pieces.len(),
{
    if pieces.len() == 0 {
        Ok(Seq::empty())
    } else {
        match fragment_spans(toks, pieces.drop_last(), code) {
            Err(e) => Err(e),
            Ok(spans) => {
                let p = pieces.last();
                if p.lo >= p.hi {
                    Err(Diagnostic { code, span: toks[p.lo as int].span })
                } else if piece_weight(toks, p) > NESTING_LIMIT {
                    Err(Diagnostic { code: ErrorCode::NestedTooDeep, span: span_of(toks, p) })
                } else {
                    Ok(spans.push(span_of(toks, p)))
                }
            },
        }
    }
}

/// A list in brackets or angle brackets: its place from the opening to the
/// closing token, its items, and the index of the token after it.
pub struct ListView {
    pub span: Span,
    pub items: Seq<Span>,
    pub next: int,
}

/// Where the error of a generic parameter list stands that no `>` closes
/// before `stop`: at the operation of the declaration, the first token
/// that is no part of the list, where the list runs into it; else just
/// after the last token before `stop`.
pub open spec fn unclosed_generics(src: Source, p: int, stop: int, op: Operation) -> Diagnostic {
    let at = operation_break(src, p + 1, stop, 0, op.name_text());
    Diagnostic {
        code: ErrorCode::UnclosedGenerics,
        span: if at < stop {
            src.tokens[at].span
        } else {
            src.end_before(stop)
        },
    }
}

/// Where the error of a type list stands that no `]` closes before
/// `stop`: just after the last type that was read, which ends where the
/// symbol of the declaration follows, or else before `stop`.
pub open spec fn unclosed_bracket(src: Source, p: int, stop: int, op: Operation) -> Diagnostic {
    Diagnostic {
        code: ErrorCode::UnclosedBracket,
        span: src.end_before(symbol_break(src.tokens, p + 1, stop, 0, op.symbol_char())),
    }
}

/// The generic parameter list that starts at token `p`, if one does:
/// a `<`, parameters separated by `,`, and the `>` that closes it.
/// Without a `<` at `p` the list is empty and takes no token.
pub open spec fn generics_at(src: Source, p: int, hi: int, op: Operation) -> Result<
    ListView,
    Diagnostic,
> {
    let toks = src.tokens;
    if p < hi && toks[p].kind == TokenKind::Punct('<') {
        match angle_close(toks, p + 1, hi, 0, 1) {
            Err(stop) => Err(unclosed_generics(src, p, stop as int, op)),
            Ok(c) => match fragment_spans(
                toks,
                separated(toks, p + 1, c as int, ','),
                ErrorCode::ExpectedGenericParam,
            ) {
                Err(e) => Err(e),
                Ok(items) => Ok(
                    ListView {
                        span: Span { start: toks[p].span.start, end: toks[c as int].span.end },
                        items,
                        next: c + 1,
                    },
                ),
            },
        }
    } else {
        Ok(ListView { span: src.end_before(p), items: Seq::empty(), next: p })
    }
}

/// The type list that starts at token `p`: a `[`, types separated by `,`,
/// and the `]` that closes it. Where the `]` is missing, the error points
/// just after the last type that was read.
pub open spec fn type_list_at(src: Source, p: int, hi: int, op: Operation) -> Result<
    ListView,
    Diagnostic,
> {
    let toks = src.tokens;
    if !(p < hi && toks[p].kind == TokenKind::Punct('[')) {
        Err(Diagnostic { code: ErrorCode::ExpectedOpenBracket, span: src.place(p, hi) })
    } else {
        match bracket_close(toks, p + 1, hi, 0) {
            Err(stop) => Err(unclosed_bracket(src, p, stop as int, op)),
            Ok(c) => match fragment_spans(
                toks,
                separated(toks, p + 1, c as int, ','),
                ErrorCode::ExpectedType,
            ) {
                Err(e) => Err(e),
                Ok(items) => Ok(
                    ListView {
                        span: Span { start: toks[p].span.start, end: toks[c as int].span.end },
                        items,
                        next: c + 1,
                    },
                ),
            },
        }
    }
}

/// The identifier of the operation `op` at token `q`: a word that reads
/// the name of `op`. Another word is an error at that word.
pub open spec fn operation_at(src: Source, q: int, hi: int, op: Operation) -> Result<
    Span,
    Diagnostic,
> {
    let toks = src.tokens;
    if !(0 <= q < hi && toks[q].kind == TokenKind::Ident) {
        Err(Diagnostic { code: ErrorCode::ExpectedIdentifier, span: src.place(q, hi) })
    } else if src.word(toks[q].span) != op.name_text() {
        Err(Diagnostic { code: ErrorCode::WrongOperation(op), span: toks[q].span })
    } else {
        Ok(toks[q].span)
    }
}

/// An identifier that is not the expected operation is an error at that
/// identifier, and its message names both: it ends in `, instead found `
/// and the identifier.
pub proof fn lemma_wrong_operation_message(src: Source, q: int, hi: int, op: Operation)
    requires
        src.wf(),
        0 <= q < hi <= src.tokens.len(),
        src.tokens[q].kind == TokenKind::Ident,
        src.word(src.tokens[q].span) != op.name_text(),
    ensures
        operation_at(src, q, hi, op) == Err::<Span, Diagnostic>(
            Diagnostic { code: ErrorCode::WrongOperation(op), span: src.tokens[q].span },
        ),
        (Diagnostic { code: ErrorCode::WrongOperation(op), span: src.tokens[q].span }).message_text(
            src.text,
        ) == ErrorCode::WrongOperation(op).fixed_text() + ", instead found "@ + src.word(
            src.tokens[q].span,
        ),
{
    assert(src.tokens[q].span.start < src.tokens[q].span.end <= src.text.len());
}

/// The outline of the declaration of `op` that the tokens `p..hi` hold,
/// or the first thing that is wrong with them.
pub open spec fn outline_at(src: Source, p: int, hi: int, op: Operation) -> Result<
    OutlineView,
    Diagnostic,
> {
    let toks = src.tokens;
    if !(p < hi && word_at(src, p, "impl"@)) {
        Err(Diagnostic { code: ErrorCode::ExpectedImpl, span: src.place(p, hi) })
    } else {
        match generics_at(src, p + 1, hi, op) {
            Err(e) => Err(e),
            Ok(g) => {
                let q = g.next;
                if operation_at(src, q, hi, op) is Err {
                    Err(operation_at(src, q, hi, op)->Err_0)
                } else if !(q + 1 < hi && word_at(src, q + 1, "for"@)) {
                    Err(Diagnostic { code: ErrorCode::ExpectedFor, span: src.place(q + 1, hi) })
                } else {
                    match type_list_at(src, q + 2, hi, op) {
                        Err(e) => Err(e),
                        Ok(l) => {
                            let s = l.next;
                            if !(s < hi && toks[s].kind == TokenKind::Punct(op.symbol_char())) {
                                Err(
                                    Diagnostic {
                                        code: ErrorCode::ExpectedSymbol(op),
                                        span: src.place(s, hi),
                                    },
                                )
                            } else {
                                match type_list_at(src, s + 1, hi, op) {
                                    Err(e) => Err(e),
                                    Ok(r) => if r.next < hi {
                                        Err(
                                            Diagnostic {
                                                code: ErrorCode::UnexpectedToken,
                                                span: toks[r.next].span,
                                            },
                                        )
                                    } else {
                                        Ok(
                                            OutlineView {
                                                impl_token: toks[p].span,
                                                generics: g.span,
                                                params: g.items,
                                                trait_: toks[q].span,
                                                for_: toks[q + 1].span,
                                                bracket1: l.span,
                                                lhs: l.items,
                                                symbol: toks[s].span,
                                                bracket2: r.span,
                                                rhs: r.items,
                                            },
                                        )
                                    },
                                }
                            }
                        },
                    }
                }
            },
        }
    }
}

/// Whether every span of an outline is a range of the first `n` characters.
pub open spec fn outline_within(o: OutlineView, n: int) -> bool {
    &&& spans_within(o.params, n)
    &&& spans_within(o.lhs, n)
    &&& spans_within(o.rhs, n)
    &&& span_within(o.generics, n)
}

/// Whether every generic parameter and type of an outline nests little
/// enough to be handed to the parser of Rust's syntax.
pub open spec fn outline_shallow(src: Source, o: OutlineView) -> bool {
    &&& spans_shallow(src, o.params)
    &&& spans_shallow(src, o.lhs)
    &&& spans_shallow(src, o.rhs)
}

/// A list that was read: its place, its items, and the token after it.
#[derive(Debug)]
pub struct List {
    pub span: Span,
    pub items: Vec<Span>,
    pub next: usize,
}

impl View for List {
    type V = ListView;

    open spec fn view(&self) -> ListView {
        ListView { span: self.span, items: self.items@, next: self.next as int }
    }
}

/// How much the tokens of a piece weigh.
pub fn weigh(input: &Input, p: Piece) -> (w: usize)
    requires
        p.lo <= p.hi <= input@.tokens.len(),
    ensures
        w == piece_weight(input@.tokens, p),
{
    let ghost toks = input@.tokens;
    let mut w: usize = 0;
    let mut j = p.lo;
    proof {
        assert(kinds_of(toks.subrange(p.lo as int, p.lo as int)) =~= Seq::<TokenKind>::empty());
    }
    while j < p.hi
        invariant
            p.lo <= j <= p.hi <= input@.tokens.len(),
            toks == input@.tokens,
            w <= j - p.lo,
            w == weight(kinds_of(toks.subrange(p.lo as int, j as int))),
        decreases p.hi - j,
    {
        let heavy = match input.token(j).kind {
            TokenKind::Punct(c) => !(c == ',' || c == ':' || c == '+' || c == ')' || c == ']' || c
                == '}' || c == '>'),
            _ => j > p.lo && match input.token(j - 1).kind {
                TokenKind::Punct(_) => false,
                _ => true,
            },
        };
        proof {
            let seen = kinds_of(toks.subrange(p.lo as int, j as int));
            let next = kinds_of(toks.subrange(p.lo as int, j + 1));
            assert(next.drop_last() =~= seen);
            assert(next[j - p.lo] == toks[j as int].kind);
            if j > p.lo {
                assert(next[j - p.lo - 1] == toks[j - 1].kind);
            }
            assert(heavy == weighs(next, j - p.lo));
        }
        if heavy {
            w += 1;
        }
        j += 1;
    }
    w
}

/// The source ranges of the pieces of a list.
pub fn fragments(input: &Input, pieces: &Vec<Piece>, code: ErrorCode) -> (r: Result<
    Vec<Span>,
    Diagnostic,
>)
    requires
        input.wf(),
        forall|k: int|
            0 <= k < pieces@.len() ==> (#[trigger] pieces@[k]).lo <= pieces@[k].hi
                < input@.tokens.len(),
    ensures
        match r {
            Ok(spans) => fragment_spans(input@.tokens, pieces@, code) == Ok::<
                Seq<Span>,
                Diagnostic,
            >(spans@) && spans_within(spans@, input@.text.len() as int) && spans_shallow(
                input@,
                spans@,
            ),
            Err(e) => fragment_spans(input@.tokens, pieces@, code) == Err::<Seq<Span>, Diagnostic>(
                e,
            ),
        },
{
    let ghost toks = input@.tokens;
    let mut out: Vec<Span> = Vec::new();
    let mut i: usize = 0;
    proof {
        assert(pieces@.take(0) =~= Seq::<Piece>::empty());
    }
    while i < pieces.len()
        invariant
            i <= pieces.len(),
            input.wf(),
            toks == input@.tokens,
            forall|k: int|
                0 <= k < pieces@.len() ==> (#[trigger] pieces@[k]).lo <= pieces@[k].hi
                    < input@.tokens.len(),
            fragment_spans(toks, pieces@.take(i as int), code) == Ok::<Seq<Span>, Diagnostic>(
                out@,
            ),
            spans_within(out@, input@.text.len() as int),
            spans_shallow(input@, out@),
        decreases pieces.len() - i,
    {
        let p = pieces[i];
        proof {
            assert(pieces@.take(i + 1).drop_last() =~= pieces@.take(i as int));
            assert(pieces@.take(i + 1).last() == p);
            assert(p == pieces@[i as int]);
        }
        if p.lo >= p.hi {
            proof {
                lemma_fragment_error(toks, pieces@, i as int, code);
            }
            return Err(Diagnostic::new(code, input.token(p.lo).span));
        }
        let s = Span { start: input.token(p.lo).span.start, end: input.token(p.hi - 1).span.end };
        if weigh(input, p) > NESTING_LIMIT {
            proof {
                lemma_fragment_error(toks, pieces@, i as int, code);
            }
            return Err(Diagnostic::new(ErrorCode::NestedTooDeep, s));
        }
        proof {
            input@.lemma_range_lexes(p.lo as int, p.hi as int);
            assert(toks[p.lo as int].span.start < toks[p.lo as int].span.end);
            if p.lo < p.hi - 1 {
                assert(toks[p.lo as int].span.end <= toks[p.hi - 1].span.start);
            }
            assert(span_within(s, input@.text.len() as int));
        }
        out.push(s);
        i += 1;
    }
    proof {
        assert(pieces@.take(pieces.len() as int) =~= pieces@);
    }
    Ok(out)
}

/// An error among the first pieces is the error of all of them.
proof fn lemma_fragment_error(toks: Seq<Token>, pieces: Seq<Piece>, i: int, code: ErrorCode)
    requires
        0 <= i < pieces.len(),
        fragment_spans(toks, pieces.take(i + 1), code) is Err,
    ensures
        fragment_spans(toks, pieces, code) == fragment_spans(toks, pieces.take(i + 1), code),
    decreases pieces.len() - i,
{
    if i + 1 < pieces.len() {
        assert(pieces.take(i + 2).drop_last() =~= pieces.take(i + 1));
        lemma_fragment_error(toks, pieces, i + 1, code);
    } else {
        assert(pieces.take(i + 1) =~= pieces);
    }
}

/// Reads the generic parameter list at token `p`, if one starts there.
pub fn parse_generics(input: &Input, p: usize, hi: usize, op: Operation) -> (r: Result<
    List,
    Diagnostic,
>)
    requires
        input.wf(),
        1 <= p <= hi <= input@.tokens.len(),
    ensures
        match r {
            Ok(l) => generics_at(input@, p as int, hi as int, op) == Ok::<ListView, Diagnostic>(l@)
                && spans_within(l.items@, input@.text.len() as int) && spans_shallow(
                input@,
                l.items@,
            ) && span_within(l.span, input@.text.len() as int) && p <= l.next <= hi,
            Err(e) => generics_at(input@, p as int, hi as int, op) == Err::<ListView, Diagnostic>(e),
        },
{
    if p < hi && input.is_punct(p, '<') {
        match find_angle_close(input, p + 1, hi) {
            Err(stop) => {
                let at = find_operation_break(input, p + 1, stop, op.name());
                let span = if at < stop {
                    input.token(at).span
                } else {
                    input.after(stop)
                };
                Err(Diagnostic::new(ErrorCode::UnclosedGenerics, span))
            },
            Ok(c) => {
                let pieces = split(input, p + 1, c, ',');
                match fragments(input, &pieces, ErrorCode::ExpectedGenericParam) {
                    Err(e) => Err(e),
                    Ok(items) => {
                        let span = Span {
                            start: input.token(p).span.start,
                            end: input.token(c).span.end,
                        };
                        proof {
                            let toks = input@.tokens;
                            assert(toks[p as int].span.start < toks[p as int].span.end);
                            assert(toks[p as int].span.end <= toks[c as int].span.start);
                        }
                        Ok(List { span, items, next: c + 1 })
                    },
                }
            },
        }
    } else {
        let span = input.after(p);
        proof {
            let toks = input@.tokens;
            assert(toks[p - 1].span.start < toks[p - 1].span.end);
        }
        Ok(List { span, items: Vec::new(), next: p })
    }
}

/// Reads the type list at token `p`.
pub fn parse_type_list(input: &Input, p: usize, hi: usize, op: Operation) -> (r: Result<
    List,
    Diagnostic,
>)
    requires
        input.wf(),
        p <= hi <= input@.tokens.len(),
    ensures
        match r {
            Ok(l) => type_list_at(input@, p as int, hi as int, op) == Ok::<ListView, Diagnostic>(l@)
                && spans_within(l.items@, input@.text.len() as int) && spans_shallow(
                input@,
                l.items@,
            ) && p < l.next <= hi,
            Err(e) => type_list_at(input@, p as int, hi as int, op) == Err::<ListView, Diagnostic>(e),
        },
{
    if !(p < hi && input.is_punct(p, '[')) {
        return Err(Diagnostic::new(ErrorCode::ExpectedOpenBracket, input.place_of(p, hi)));
    }
    match find_bracket_close(input, p + 1, hi) {
        Err(stop) => {
            let at = find_symbol_break(input, p + 1, stop, op.symbol());
            Err(Diagnostic::new(ErrorCode::UnclosedBracket, input.after(at)))
        },
        Ok(c) => {
            let pieces = split(input, p + 1, c, ',');
            match fragments(input, &pieces, ErrorCode::ExpectedType) {
                Err(e) => Err(e),
                Ok(items) => {
                    let span = Span {
                        start: input.token(p).span.start,
                        end: input.token(c).span.end,
                    };
                    Ok(List { span, items, next: c + 1 })
                },
            }
        },
    }
}

/// Reads the identifier of the operation `op` at token `q`.
pub fn parse_operation(input: &Input, q: usize, hi: usize, op: Operation) -> (r: Result<
    Span,
    Diagnostic,
>)
    requires
        input.wf(),
        q <= hi <= input@.tokens.len(),
    ensures
        r == operation_at(input@, q as int, hi as int, op),
{
    if !(q < hi && input.is_word_token(q)) {
        return Err(Diagnostic::new(ErrorCode::ExpectedIdentifier, input.place_of(q, hi)));
    }
    if !input.is_word(q, op.name()) {
        return Err(Diagnostic::new(ErrorCode::WrongOperation(op), input.token(q).span));
    }
    Ok(input.token(q).span)
}

/// Reads the outline of the declaration of `op` that the tokens `p..hi`
/// hold.
pub fn parse_outline(input: &Input, p: usize, hi: usize, op: Operation) -> (r: Result<
    Outline,
    Diagnostic,
>)
    requires
        input.wf(),
        p <= hi <= input@.tokens.len(),
    ensures
        match r {
            Ok(o) => outline_at(input@, p as int, hi as int, op) == Ok::<OutlineView, Diagnostic>(
                o@,
            ) && outline_within(o@, input@.text.len() as int) && outline_shallow(input@, o@),
            Err(e) => outline_at(input@, p as int, hi as int, op) == Err::<OutlineView, Diagnostic>(
                e,
            ),
        },
{
    if !(p < hi && input.is_word(p, "impl")) {
        return Err(Diagnostic::new(ErrorCode::ExpectedImpl, input.place_of(p, hi)));
    }
    let g = match parse_generics(input, p + 1, hi, op) {
        Err(e) => {
            return Err(e);
        },
        Ok(g) => g,
    };
    let q = g.next;
    let trait_ = match parse_operation(input, q, hi, op) {
        Err(e) => {
            return Err(e);
        },
        Ok(span) => span,
    };
    if !(q + 1 < hi && input.is_word(q + 1, "for")) {
        return Err(Diagnostic::new(ErrorCode::ExpectedFor, input.place_of(q + 1, hi)));
    }
    let l = match parse_type_list(input, q + 2, hi, op) {
        Err(e) => {
            return Err(e);
        },
        Ok(l) => l,
    };
    let s = l.next;
    if !(s < hi && input.is_punct(s, op.symbol())) {
        return Err(Diagnostic::new(ErrorCode::ExpectedSymbol(op), input.place_of(s, hi)));
    }
    let r = match parse_type_list(input, s + 1, hi, op) {
        Err(e) => {
            return Err(e);
        },
        Ok(r) => r,
    };
    if r.next < hi {
        return Err(Diagnostic::new(ErrorCode::UnexpectedToken, input.token(r.next).span));
    }
    Ok(
        Outline {
            impl_token: input.token(p).span,
            generics: g.span,
            params: g.items,
            trait_,
            for_: input.token(q + 1).span,
            bracket1: l.span,
            lhs: l.items,
            symbol: input.token(s).span,
            bracket2: r.span,
            rhs: r.items,
        },
    )
}

} // verus!
