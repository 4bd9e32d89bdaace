//! One declaration: from its outline and the verdicts on its generic
//! parameters and types to its parts, checked.
use vstd::prelude::*;

use crate::arg::{document, outcome, Parse};
use crate::render::all_text;
use crate::diagnostic::{Diagnostic, ErrorCode, Operation, Span};
use crate::emit::{emit, emitted, Flags, ImplUnit, ImplUnitView, TypeExpr, TypeExprView};
use crate::generics::{
    sanitized, with_left_scope, GenericParam, GenericParamView, Generics, GenericsView,
};
use crate::model::models;
use crate::outline::{
    outline_at, outline_shallow, outline_within, parse_outline, spans_shallow, spans_within, Outline,
    OutlineView,
};
use crate::rust::{generic_param_shape, is_rust_type, ParamShape};
use crate::token::{Input, Source};

verus! {

/// A declaration that was read and checked.
#[derive(Debug)]
pub struct Declaration {
    /// The operation that the declaration implements.
    pub operation: Operation,
    /// The keyword `impl`.
    pub impl_token: Span,
    /// The generic parameters as declared.
    pub generics: Generics,
    /// Whether the generic parameters hold `'lhs`.
    pub contains_lhs: bool,
    /// The identifier of the operation.
    pub trait_: Span,
    /// The keyword `for`.
    pub for_: Span,
    /// The left type list from `[` to `]`.
    pub bracket1: Span,
    /// The left types, in order.
    pub lhs_tys: Vec<TypeExpr>,
    /// The symbol of the operation.
    pub symbol: Span,
    /// The right type list from `[` to `]`.
    pub bracket2: Span,
    /// The right types, in order.
    pub rhs_tys: Vec<TypeExpr>,
}

/// The model of a declaration.
pub struct DeclarationView {
    pub operation: Operation,
    pub impl_token: Span,
    pub generics: GenericsView,
    pub contains_lhs: bool,
    pub trait_: Span,
    pub for_: Span,
    pub bracket1: Span,
    pub lhs_tys: Seq<TypeExprView>,
    pub symbol: Span,
    pub bracket2: Span,
    pub rhs_tys: Seq<TypeExprView>,
}

impl View for Declaration {
    type V = DeclarationView;

    open spec fn view(&self) -> DeclarationView {
        DeclarationView {
            operation: self.operation,
            impl_token: self.impl_token,
            generics: self.generics@,
            contains_lhs: self.contains_lhs,
            trait_: self.trait_,
            for_: self.for_,
            bracket1: self.bracket1,
            lhs_tys: models(self.lhs_tys@),
            symbol: self.symbol,
            bracket2: self.bracket2,
            rhs_tys: models(self.rhs_tys@),
        }
    }
}

/// The generic parameters that the variants of `d` with a mutable left
/// operand carry: for an elementwise operation the declared ones with
/// `'lhs` added where it is missing, for a dot product the declared ones.
pub open spec fn mut_generics_of(d: DeclarationView) -> GenericsView {
    if d.operation.is_elementwise() {
        with_left_scope(d.generics, d.contains_lhs)
    } else {
        d.generics
    }
}

/// The implementations that the declaration `d` gives under `flags`, in
/// emission order.
pub open spec fn units_of(d: DeclarationView, flags: Flags) -> Seq<ImplUnitView> {
    emitted(d.operation, d.generics, mut_generics_of(d), d.lhs_tys, d.rhs_tys, flags)
}

/// Emits the implementations of a declaration given by its parts.
pub fn emit_parts(
    op: Operation,
    generics: &Generics,
    contains_lhs: bool,
    lhs_tys: &Vec<TypeExpr>,
    rhs_tys: &Vec<TypeExpr>,
    flags: Flags,
) -> (out: Vec<ImplUnit>)
    ensures
        models(out@) == emitted(
            op,
            generics@,
            if op.is_elementwise() {
                with_left_scope(generics@, contains_lhs)
            } else {
                generics@
            },
            models(lhs_tys@),
            models(rhs_tys@),
            flags,
        ),
{
    let elementwise = match op {
        Operation::Mul => false,
        _ => true,
    };
    let mut_generics = if elementwise {
        generics.with_left_scope(contains_lhs)
    } else {
        generics.clone()
    };
    emit(op, generics, &mut_generics, lhs_tys, rhs_tys, flags)
}

/// A part of a document that gives implementations.
pub trait Emit: View {
    /// The implementations that a value gives, in emission order.
    spec fn units(v: Self::V) -> Seq<ImplUnitView>;

    /// Emits the implementations.
    fn emit(&self) -> (out: Vec<ImplUnit>)
        ensures
            models(out@) == Self::units(self@),
    ;
}

/// The implementations that the values of `args` give, in the order of
/// `args`.
pub open spec fn all_units<T: Emit>(args: Seq<T::V>) -> Seq<ImplUnitView>
    decreases args.len(),
{
    if args.len() == 0 {
        Seq::empty()
    } else {
        all_units::<T>(args.drop_last()) + T::units(args.last())
    }
}

/// Whether `r` is an outcome of generating from the text `text`: the text
/// of the implementations of the values that the document holds, in
/// order, or the one diagnostic of the document.
pub open spec fn generated<T: Parse + Emit>(
    text: Seq<char>,
    sep: char,
    r: Result<Seq<char>, Diagnostic>,
) -> bool {
    match r {
        Ok(s) => exists|args: Seq<T::V>|
            document::<T>(text, sep, Ok(args)) && s == all_text(#[trigger] all_units::<T>(args)),
        Err(e) => document::<T>(text, sep, Err(e)),
    }
}

/// Emits the implementations of each of `args`, in order.
pub fn emit_all<T: Emit>(args: &Vec<T>) -> (out: Vec<ImplUnit>)
    ensures
        models(out@) == all_units::<T>(models(args@)),
{
    let mut out: Vec<ImplUnit> = Vec::new();
    let mut i: usize = 0;
    proof {
        assert(models(args@).take(0) =~= Seq::<T::V>::empty());
        assert(models(out@) =~= Seq::<ImplUnitView>::empty());
    }
    while i < args.len()
        invariant
            i <= args.len(),
            models(out@) == all_units::<T>(models(args@).take(i as int)),
        decreases args.len() - i,
    {
        let mut units = args[i].emit();
        proof {
            let done = models(args@).take(i as int);
            assert(models(args@).take(i + 1).drop_last() =~= done);
            assert(models(args@).take(i + 1).last() == args@[i as int]@);
            assert(models(out@ + units@) =~= models(out@) + models(units@));
        }
        out.append(&mut units);
        i += 1;
    }
    proof {
        assert(models(args@).take(args.len() as int) =~= models(args@));
    }
    out
}

/// What the parser of Rust's syntax said of the generic parameters and
/// the types of a declaration, item by item.
#[derive(Debug)]
pub struct Verdicts {
    pub params: Vec<ParamShape>,
    pub lhs: Vec<bool>,
    pub rhs: Vec<bool>,
}

/// Whether `v` holds one verdict for each generic parameter and each type
/// of the outline `o`.
pub open spec fn judged(o: OutlineView, v: Verdicts) -> bool {
    &&& v.params@.len() == o.params.len()
    &&& v.lhs@.len() == o.lhs.len()
    &&& v.rhs@.len() == o.rhs.len()
}

/// The index of the first generic parameter from `from` on that was
/// rejected, or the number of parameters where none was.
pub open spec fn first_rejected(shapes: Seq<Option<Option<Seq<char>>>>, from: int) -> int
    decreases shapes.len() - from,
{
    if from < 0 || from >= shapes.len() {
        shapes.len() as int
    } else if shapes[from] is None {
        from
    } else {
        first_rejected(shapes, from + 1)
    }
}

/// The index of the first type from `from` on that was rejected, or the
/// number of types where none was.
pub open spec fn first_refused(oks: Seq<bool>, from: int) -> int
    decreases oks.len() - from,
{
    if from < 0 || from >= oks.len() {
        oks.len() as int
    } else if !oks[from] {
        from
    } else {
        first_refused(oks, from + 1)
    }
}

/// The generic parameter that stands at `span`, of shape `shape`.
pub open spec fn param_of(src: Source, span: Span, shape: Option<Option<Seq<char>>>)
    -> GenericParamView {
    GenericParamView {
        text: src.word(span),
        scope: match shape {
            Some(Some(name)) => Some(name),
            _ => None,
        },
    }
}

/// The type that stands at `span`.
pub open spec fn type_of(src: Source, span: Span) -> TypeExprView {
    TypeExprView { text: src.word(span), span }
}

/// The declaration of `op` with outline `o`, given the verdicts on its
/// generic parameters and its types. The first rejected item is an error
/// at that item, generic parameters before left types before right types.
/// For an elementwise operation a generic parameter list that declares
/// `'lhs` more than once is an error at the list.
pub open spec fn assembled(
    src: Source,
    o: OutlineView,
    shapes: Seq<Option<Option<Seq<char>>>>,
    lhs_ok: Seq<bool>,
    rhs_ok: Seq<bool>,
    op: Operation,
) -> Result<DeclarationView, Diagnostic> {
    let generics = GenericsView {
        params: Seq::new(o.params.len(), |k: int| param_of(src, o.params[k], shapes[k])),
        span: o.generics,
    };
    if first_rejected(shapes, 0) < shapes.len() {
        Err(
            Diagnostic {
                code: ErrorCode::InvalidGenericParam,
                span: o.params[first_rejected(shapes, 0)],
            },
        )
    } else if first_refused(lhs_ok, 0) < lhs_ok.len() {
        Err(Diagnostic { code: ErrorCode::InvalidType, span: o.lhs[first_refused(lhs_ok, 0)] })
    } else if first_refused(rhs_ok, 0) < rhs_ok.len() {
        Err(Diagnostic { code: ErrorCode::InvalidType, span: o.rhs[first_refused(rhs_ok, 0)] })
    } else if op.is_elementwise() && sanitized(generics) is Err {
        Err(sanitized(generics)->Err_0)
    } else {
        Ok(
            DeclarationView {
                operation: op,
                impl_token: o.impl_token,
                generics,
                contains_lhs: op.is_elementwise() && sanitized(generics)->Ok_0,
                trait_: o.trait_,
                for_: o.for_,
                bracket1: o.bracket1,
                lhs_tys: Seq::new(o.lhs.len(), |k: int| type_of(src, o.lhs[k])),
                symbol: o.symbol,
                bracket2: o.bracket2,
                rhs_tys: Seq::new(o.rhs.len(), |k: int| type_of(src, o.rhs[k])),
            },
        )
    }
}

/// Whether `r` is an outcome of reading the tokens `lo..hi` of `src` as a
/// declaration of `op`. Where their outline is wrong, the outcome is the
/// error of the outline. Else it is what [`assembled`] gives for some
/// verdicts, one for each generic parameter and each type: which verdicts,
/// the parser of Rust's syntax decides.
pub open spec fn declares(
    src: Source,
    lo: int,
    hi: int,
    op: Operation,
    r: Result<DeclarationView, Diagnostic>,
) -> bool {
    match outline_at(src, lo, hi, op) {
        Err(e) => r == Err::<DeclarationView, Diagnostic>(e),
        Ok(o) => exists|shapes: Seq<Option<Option<Seq<char>>>>, lhs_ok: Seq<bool>, rhs_ok: Seq<bool>|
            shapes.len() == o.params.len() && lhs_ok.len() == o.lhs.len() && rhs_ok.len()
                == o.rhs.len() && r == #[trigger] assembled(src, o, shapes, lhs_ok, rhs_ok, op),
    }
}

/// Asks the parser of Rust's syntax about each type of `spans`.
fn judge_types(input: &Input, spans: &Vec<Span>) -> (oks: Vec<bool>)
    requires
        spans_within(spans@, input@.text.len() as int),
        spans_shallow(input@, spans@),
    ensures
        oks@.len() == spans@.len(),
{
    let mut oks: Vec<bool> = Vec::new();
    let mut k: usize = 0;
    while k < spans.len()
        invariant
            k <= spans.len(),
            spans_within(spans@, input@.text.len() as int),
            spans_shallow(input@, spans@),
            oks@.len() == k,
        decreases spans.len() - k,
    {
        let ok = is_rust_type(input.slice(spans[k]));
        oks.push(ok);
        k += 1;
    }
    oks
}

/// Asks the parser of Rust's syntax about each generic parameter of
/// `spans`.
fn judge_params(input: &Input, spans: &Vec<Span>) -> (shapes: Vec<ParamShape>)
    requires
        spans_within(spans@, input@.text.len() as int),
        spans_shallow(input@, spans@),
    ensures
        shapes@.len() == spans@.len(),
{
    let mut shapes: Vec<ParamShape> = Vec::new();
    let mut k: usize = 0;
    while k < spans.len()
        invariant
            k <= spans.len(),
            spans_within(spans@, input@.text.len() as int),
            spans_shallow(input@, spans@),
            shapes@.len() == k,
        decreases spans.len() - k,
    {
        let shape = generic_param_shape(input.slice(spans[k]));
        shapes.push(shape);
        k += 1;
    }
    shapes
}

/// Asks the parser of Rust's syntax about each generic parameter and each
/// type of an outline. What it answers is not stated: there is one verdict
/// for each.
pub fn judge(input: &Input, outline: &Outline) -> (v: Verdicts)
    requires
        outline_within(outline@, input@.text.len() as int),
        outline_shallow(input@, outline@),
    ensures
        judged(outline@, v),
{
    Verdicts {
        params: judge_params(input, &outline.params),
        lhs: judge_types(input, &outline.lhs),
        rhs: judge_types(input, &outline.rhs),
    }
}

/// The index of the first type that was rejected, if any.
fn find_refused(oks: &Vec<bool>) -> (r: Option<usize>)
    ensures
        match r {
            Some(k) => k == first_refused(oks@, 0) && k < oks@.len(),
            None => first_refused(oks@, 0) == oks@.len(),
        },
{
    let mut k: usize = 0;
    while k < oks.len()
        invariant
            k <= oks.len(),
            first_refused(oks@, 0) == first_refused(oks@, k as int),
        decreases oks.len() - k,
    {
        if !oks[k] {
            return Some(k);
        }
        k += 1;
    }
    None
}

/// The types that stand at `spans`.
fn types_at(input: &Input, spans: &Vec<Span>) -> (out: Vec<TypeExpr>)
    requires
        spans_within(spans@, input@.text.len() as int),
    ensures
        models(out@) == Seq::new(spans@.len(), |k: int| type_of(input@, spans@[k])),
{
    let mut out: Vec<TypeExpr> = Vec::new();
    let mut k: usize = 0;
    while k < spans.len()
        invariant
            k <= spans.len(),
            spans_within(spans@, input@.text.len() as int),
            out@.len() == k,
            forall|j: int| 0 <= j < k ==> (#[trigger] out@[j])@ == type_of(input@, spans@[j]),
        decreases spans.len() - k,
    {
        let span = spans[k];
        out.push(TypeExpr { text: input.slice(span).to_owned(), span });
        k += 1;
    }
    proof {
        assert(models(out@) =~= Seq::new(spans@.len(), |k: int| type_of(input@, spans@[k])));
    }
    out
}

/// The generic parameters that stand at `spans`, or the index of the
/// first that was rejected.
fn params_at(input: &Input, spans: &Vec<Span>, shapes: &Vec<ParamShape>) -> (r: Result<
    Vec<GenericParam>,
    usize,
>)
    requires
        spans_within(spans@, input@.text.len() as int),
        shapes@.len() == spans@.len(),
    ensures
        match r {
            Ok(out) => first_rejected(models(shapes@), 0) == shapes@.len() && models(out@)
                == Seq::new(
                spans@.len(),
                |k: int| param_of(input@, spans@[k], models(shapes@)[k]),
            ),
            Err(k) => k == first_rejected(models(shapes@), 0) && k < shapes@.len(),
        },
{
    let mut out: Vec<GenericParam> = Vec::new();
    let mut k: usize = 0;
    while k < spans.len()
        invariant
            k <= spans.len(),
            spans_within(spans@, input@.text.len() as int),
            shapes@.len() == spans@.len(),
            out@.len() == k,
            first_rejected(models(shapes@), 0) == first_rejected(models(shapes@), k as int),
            forall|j: int|
                0 <= j < k ==> (#[trigger] out@[j])@ == param_of(
                    input@,
                    spans@[j],
                    models(shapes@)[j],
                ),
        decreases spans.len() - k,
    {
        let text = input.slice(spans[k]).to_owned();
        let scope = match &shapes[k] {
            ParamShape::Rejected => {
                return Err(k);
            },
            ParamShape::Region(name) => Some(name.clone()),
            ParamShape::Plain => None,
        };
        out.push(GenericParam { text, scope });
        k += 1;
    }
    proof {
        assert(models(out@) =~= Seq::new(
            spans@.len(),
            |k: int| param_of(input@, spans@[k], models(shapes@)[k]),
        ));
    }
    Ok(out)
}

impl Declaration {
    /// Puts a declaration of `op` together from its outline and the
    /// verdicts on its generic parameters and types, and checks its region
    /// parameters where `op` is elementwise.
    pub fn assemble(input: &Input, outline: Outline, verdicts: &Verdicts, op: Operation) -> (r:
        Result<Declaration, Diagnostic>)
        requires
            outline_within(outline@, input@.text.len() as int),
            verdicts.params@.len() == outline@.params.len(),
            verdicts.lhs@.len() == outline@.lhs.len(),
            verdicts.rhs@.len() == outline@.rhs.len(),
        ensures
            match r {
                Ok(d) => assembled(
                    input@,
                    outline@,
                    models(verdicts.params@),
                    verdicts.lhs@,
                    verdicts.rhs@,
                    op,
                ) == Ok::<DeclarationView, Diagnostic>(d@),
                Err(e) => assembled(
                    input@,
                    outline@,
                    models(verdicts.params@),
                    verdicts.lhs@,
                    verdicts.rhs@,
                    op,
                ) == Err::<DeclarationView, Diagnostic>(e),
            },
    {
        let params = match params_at(input, &outline.params, &verdicts.params) {
            Err(k) => {
                return Err(Diagnostic::new(ErrorCode::InvalidGenericParam, outline.params[k]));
            },
            Ok(params) => params,
        };
        match find_refused(&verdicts.lhs) {
            Some(k) => {
                return Err(Diagnostic::new(ErrorCode::InvalidType, outline.lhs[k]));
            },
            None => {},
        }
        match find_refused(&verdicts.rhs) {
            Some(k) => {
                return Err(Diagnostic::new(ErrorCode::InvalidType, outline.rhs[k]));
            },
            None => {},
        }
        let generics = Generics { params, span: outline.generics };
        let elementwise = match op {
            Operation::Mul => false,
            _ => true,
        };
        let contains_lhs = if elementwise {
            match generics.sanitize() {
                Err(e) => {
                    return Err(e);
                },
                Ok(found) => found,
            }
        } else {
            false
        };
        let lhs_tys = types_at(input, &outline.lhs);
        let rhs_tys = types_at(input, &outline.rhs);
        Ok(
            Declaration {
                operation: op,
                impl_token: outline.impl_token,
                generics,
                contains_lhs,
                trait_: outline.trait_,
                for_: outline.for_,
                bracket1: outline.bracket1,
                lhs_tys,
                symbol: outline.symbol,
                bracket2: outline.bracket2,
                rhs_tys,
            },
        )
    }

    /// Reads the declaration of `op` that the tokens `lo..hi` hold.
    pub fn parse(input: &Input, lo: usize, hi: usize, op: Operation) -> (r: Result<
        Declaration,
        Diagnostic,
    >)
        requires
            input.wf(),
            lo <= hi <= input@.tokens.len(),
        ensures
            declares(input@, lo as int, hi as int, op, outcome(r)),
    {
        match parse_outline(input, lo, hi, op) {
            Err(e) => Err(e),
            Ok(outline) => {
                let verdicts = judge(input, &outline);
                let ghost o = outline@;
                let r = Self::assemble(input, outline, &verdicts, op);
                proof {
                    assert(outcome(r) == assembled(
                        input@,
                        o,
                        models(verdicts.params@),
                        verdicts.lhs@,
                        verdicts.rhs@,
                        op,
                    ));
                }
                r
            },
        }
    }
}

} // verus!
