//! Declarations of the dot product: `impl<..> Mul for [..] * [..]`.
use vstd::prelude::*;

use crate::arg::{document, parse_document, ArgParser, Parse};
use crate::attributes::{
    annotations_from, classification, present, AttrIdentFilter, AttrIdentFilterView,
};
use crate::declaration::{
    all_units, declares, emit_all, emit_parts, generated, mut_generics_of, units_of, Declaration,
    DeclarationView, Emit,
};
use crate::diagnostic::{Diagnostic, Operation, Span};
use crate::emit::{variants, Flags, ImplUnit, ImplUnitView, TypeExpr};
use crate::generics::Generics;
use crate::laws::{lemma_emitted_len, lemma_variant_count};
use crate::model::{models, texts};
use crate::render::{all_text, render_all};
use crate::token::{Input, Source};
use crate::traits::Mul;

verus! {

/// A declaration of the dot product.
#[derive(Debug)]
pub struct ImplDotProductArg {
    pub impl_token: Span,
    pub generics: Generics,
    pub trait_: Mul,
    pub for_: Span,
    pub bracket1: Span,
    pub lhs_tys: Vec<TypeExpr>,
    /// The symbol `*` between the two type lists.
    pub plus: Span,
    pub bracket2: Span,
    pub rhs_tys: Vec<TypeExpr>,
}

impl View for ImplDotProductArg {
    type V = DeclarationView;

    open spec fn view(&self) -> DeclarationView {
        DeclarationView {
            operation: Operation::Mul,
            impl_token: self.impl_token,
            generics: self.generics@,
            contains_lhs: false,
            trait_: self.trait_.ident,
            for_: self.for_,
            bracket1: self.bracket1,
            lhs_tys: models(self.lhs_tys@),
            symbol: self.plus,
            bracket2: self.bracket2,
            rhs_tys: models(self.rhs_tys@),
        }
    }
}

impl Parse for ImplDotProductArg {
    open spec fn admits(
        src: Source,
        lo: int,
        hi: int,
        r: Result<DeclarationView, Diagnostic>,
    ) -> bool {
        declares(src, lo, hi, Operation::Mul, r)
    }

    fn parse(input: &Input, lo: usize, hi: usize) -> (r: Result<Self, Diagnostic>) {
        match Declaration::parse(input, lo, hi, Operation::Mul) {
            Err(e) => Err(e),
            Ok(d) => Ok(
                ImplDotProductArg {
                    impl_token: d.impl_token,
                    generics: d.generics,
                    trait_: Mul { ident: d.trait_ },
                    for_: d.for_,
                    bracket1: d.bracket1,
                    lhs_tys: d.lhs_tys,
                    plus: d.symbol,
                    bracket2: d.bracket2,
                    rhs_tys: d.rhs_tys,
                },
            ),
        }
    }
}

impl ImplDotProductArg {
    /// Emits the implementations of the declaration under `flags`.
    pub fn emit_with(&self, flags: Flags) -> (out: Vec<ImplUnit>)
        ensures
            models(out@) == units_of(self@, flags),
    {
        emit_parts(
            Operation::Mul,
            &self.generics,
            false,
            &self.lhs_tys,
            &self.rhs_tys,
            flags,
        )
    }
}

/// A declaration with its annotations, classified by the switches for
/// mutable operands. Annotations that the list does not recognize are kept
/// among the misses and change nothing.
#[derive(Debug)]
pub struct FullArg<T> {
    pub mutability: AttrIdentFilter,
    pub arg: T,
}

/// The model of a [`FullArg`].
pub struct FullArgView<V> {
    pub mutability: AttrIdentFilterView,
    pub arg: V,
}

impl<T: View> View for FullArg<T> {
    type V = FullArgView<T::V>;

    open spec fn view(&self) -> FullArgView<T::V> {
        FullArgView { mutability: self.mutability@, arg: self.arg@ }
    }
}

/// The names of the annotations that switch on mutable operands.
pub open spec fn mutability_names() -> Seq<Seq<char>> {
    seq!["mut_left"@, "mut_right"@]
}

/// What the annotations of a dot product switch on. Each annotation
/// counts where it stands exactly once. Nothing suppresses the base
/// variants.
pub open spec fn reduction_flags<V>(v: FullArgView<V>) -> Flags {
    Flags {
        mutate_left: present(v.mutability.base_attrs, "mut_left"@, false),
        mutate_right: present(v.mutability.base_attrs, "mut_right"@, false),
        suppress_owned: false,
    }
}

/// Whatever its annotations, a dot product gives at least the four base
/// implementations per pair, and exactly four without annotations.
pub proof fn lemma_always_four(v: FullArgView<DeclarationView>)
    requires
        v.arg.operation == Operation::Mul,
    ensures
        units_of(v.arg, reduction_flags(v)).len() >= v.arg.lhs_tys.len() * v.arg.rhs_tys.len() * 4,
        v.mutability.base_attrs.len() == 0 ==> units_of(v.arg, reduction_flags(v)).len()
            == v.arg.lhs_tys.len() * v.arg.rhs_tys.len() * 4,
{
    reveal(Seq::filter);
    let flags = reduction_flags(v);
    let pairs = (v.arg.lhs_tys.len() * v.arg.rhs_tys.len()) as int;
    lemma_emitted_len(
        Operation::Mul,
        v.arg.generics,
        mut_generics_of(v.arg),
        v.arg.lhs_tys,
        v.arg.rhs_tys,
        flags,
    );
    lemma_variant_count(Operation::Mul, flags);
    let k = variants(Operation::Mul, flags).len() as int;
    assert(pairs * 4 <= pairs * k) by (nonlinear_arith)
        requires
            0 <= pairs,
            4 <= k,
    ;
}

impl<T: Parse> Parse for FullArg<T> {
    open spec fn admits(
        src: Source,
        lo: int,
        hi: int,
        r: Result<FullArgView<T::V>, Diagnostic>,
    ) -> bool {
        match annotations_from(src, lo, hi) {
            Err(e) => r == Err::<FullArgView<T::V>, Diagnostic>(e),
            Ok(a) => match r {
                Ok(v) => {
                    &&& v.mutability == classification(a.annotations, mutability_names())
                    &&& T::admits(src, a.next, hi, Ok(v.arg))
                },
                Err(e) => T::admits(src, a.next, hi, Err(e)),
            },
        }
    }

    fn parse(input: &Input, lo: usize, hi: usize) -> (r: Result<Self, Diagnostic>) {
        let names: Vec<&'static str> = vec!["mut_left", "mut_right"];
        proof {
            assert(texts(names@) =~= mutability_names());
        }
        match AttrIdentFilter::parse_filter(input, lo, hi, names) {
            Ok((mutability, next)) => match T::parse(input, next, hi) {
                Ok(arg) => Ok(FullArg { mutability, arg }),
                Err(e) => Err(e),
            },
            Err(e) => Err(e),
        }
    }
}

impl<T: Parse> ArgParser for FullArg<T> {

}

impl<T: View> FullArg<T> {
    /// What the annotations switch on.
    pub fn flags(&self) -> (f: Flags)
        ensures
            f == reduction_flags(self@),
    {
        Flags {
            mutate_left: self.mutability.match_against("mut_left", false),
            mutate_right: self.mutability.match_against("mut_right", false),
            suppress_owned: false,
        }
    }
}

impl Emit for FullArg<ImplDotProductArg> {
    open spec fn units(v: FullArgView<DeclarationView>) -> Seq<ImplUnitView> {
        units_of(v.arg, reduction_flags(v))
    }

    fn emit(&self) -> (out: Vec<ImplUnit>) {
        self.arg.emit_with(self.flags())
    }
}

/// A document of declarations of the dot product.
#[derive(Debug)]
pub struct ImplDotProduct {
    pub args: Vec<FullArg<ImplDotProductArg>>,
}

impl ImplDotProduct {
    /// Reads a document: declarations separated by `;`, at least one, a
    /// last `;` allowed. Stops at the first declaration that fails.
    pub fn parse(text: &str) -> (r: Result<Self, Diagnostic>)
        ensures
            document::<FullArg<ImplDotProductArg>>(
                text@,
                ';',
                match r {
                    Ok(d) => Ok(models(d.args@)),
                    Err(e) => Err(e),
                },
            ),
            r matches Ok(d) ==> d.args@.len() >= 1,
    {
        match parse_document::<FullArg<ImplDotProductArg>>(text, ';') {
            Ok(args) => Ok(ImplDotProduct { args }),
            Err(e) => Err(e),
        }
    }

    /// Emits the implementations of all declarations, in order.
    pub fn emit(&self) -> (out: Vec<ImplUnit>)
        ensures
            models(out@) == all_units::<FullArg<ImplDotProductArg>>(models(self.args@)),
    {
        emit_all(&self.args)
    }

    /// Reads a document and gives the text of the implementations of all
    /// its declarations, in order. A document that fails gives its one
    /// diagnostic and no text.
    pub fn generate(text: &str) -> (r: Result<String, Diagnostic>)
        ensures
            generated::<FullArg<ImplDotProductArg>>(
                text@,
                ';',
                match r {
                    Ok(s) => Ok(s@),
                    Err(e) => Err(e),
                },
            ),
    {
        match Self::parse(text) {
            Ok(doc) => {
                let s = render_all(&doc.emit());
                proof {
                    let args = models(doc.args@);
                    assert(s@ == all_text(all_units::<FullArg<ImplDotProductArg>>(args)));
                }
                Ok(s)
            },
            Err(e) => Err(e),
        }
    }
}

} // verus!
