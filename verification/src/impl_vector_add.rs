//! Declarations of elementwise addition: `impl<..> Add for [..] + [..]`.
use vstd::prelude::*;

use crate::arg::{document, parse_document, Parse};
use crate::declaration::{
    all_units, declares, emit_all, emit_parts, generated, units_of, Declaration, DeclarationView, Emit,
};
use crate::diagnostic::{Diagnostic, Operation, Span};
use crate::emit::{Flags, ImplUnit, ImplUnitView, TypeExpr};
use crate::generics::{sanitized, with_left_scope, Generics};
use crate::impl_vector_sub::{elementwise_flags, region_required, FullArg, FullArgView};
use crate::model::models;
use crate::render::{all_text, render_all};
use crate::token::{Input, Source};
use crate::traits::Add;

verus! {

/// A declaration of elementwise addition.
#[derive(Debug)]
pub struct ImplVectorAddArg {
    pub impl_token: Span,
    pub generics: Generics,
    /// Whether the generic parameters hold `'lhs`.
    pub contains_lhs: bool,
    pub trait_: Add,
    pub for_: Span,
    pub bracket1: Span,
    pub lhs_tys: Vec<TypeExpr>,
    pub plus: Span,
    pub bracket2: Span,
    pub rhs_tys: Vec<TypeExpr>,
}

impl View for ImplVectorAddArg {
    type V = DeclarationView;

    open spec fn view(&self) -> DeclarationView {
        DeclarationView {
            operation: Operation::Add,
            impl_token: self.impl_token,
            generics: self.generics@,
            contains_lhs: self.contains_lhs,
            trait_: self.trait_.ident,
            for_: self.for_,
            bracket1: self.bracket1,
            lhs_tys: models(self.lhs_tys@),
            symbol: self.plus,
            bracket2: self.bracket2,
            rhs_tys: models(self.rhs_tys@),
        }
    }
}

impl Parse for ImplVectorAddArg {
    open spec fn admits(
        src: Source,
        lo: int,
        hi: int,
        r: Result<DeclarationView, Diagnostic>,
    ) -> bool {
        declares(src, lo, hi, Operation::Add, r)
    }

    fn parse(input: &Input, lo: usize, hi: usize) -> (r: Result<Self, Diagnostic>) {
        match Declaration::parse(input, lo, hi, Operation::Add) {
            Err(e) => Err(e),
            Ok(d) => Ok(
                ImplVectorAddArg {
                    impl_token: d.impl_token,
                    generics: d.generics,
                    contains_lhs: d.contains_lhs,
                    trait_: Add { ident: d.trait_ },
                    for_: d.for_,
                    bracket1: d.bracket1,
                    lhs_tys: d.lhs_tys,
                    plus: d.symbol,
                    bracket2: d.bracket2,
                    rhs_tys: d.rhs_tys,
                },
            ),
        }
    }
}

impl ImplVectorAddArg {
    /// Checks the region parameters of the declaration: fails where `'lhs`
    /// is declared more than once, and else says whether it is declared.
    /// A repeated `'rhs` does not fail.
    pub fn sanitize_generics(&self) -> (r: Result<bool, Diagnostic>)
        ensures
            r == sanitized(self@.generics),
    {
        self.generics.sanitize()
    }

    /// The generic parameters for the variants with a mutable left
    /// operand: the declared ones, with `'lhs` added at the end unless the
    /// declaration has it.
    pub fn mut_generics(&self) -> (r: Generics)
        ensures
            r@ == with_left_scope(self@.generics, self@.contains_lhs),
    {
        self.generics.with_left_scope(self.contains_lhs)
    }

    /// Emits the implementations of the declaration under `flags`.
    pub fn emit_with(&self, flags: Flags) -> (out: Vec<ImplUnit>)
        ensures
            models(out@) == units_of(self@, flags),
    {
        emit_parts(
            Operation::Add,
            &self.generics,
            self.contains_lhs,
            &self.lhs_tys,
            &self.rhs_tys,
            flags,
        )
    }
}

impl FullArg<ImplVectorAddArg> {
    /// Whether `'lhs` has to be added for the variants with a mutable left
    /// operand.
    pub fn region_required(&self) -> (b: bool)
        ensures
            b == region_required(self@),
    {
        self.flags().mutate_left && !self.arg.contains_lhs
    }
}

impl Emit for FullArg<ImplVectorAddArg> {
    open spec fn units(v: FullArgView<DeclarationView>) -> Seq<ImplUnitView> {
        units_of(v.arg, elementwise_flags(v))
    }

    fn emit(&self) -> (out: Vec<ImplUnit>) {
        self.arg.emit_with(self.flags())
    }
}

/// A document of declarations of elementwise addition.
#[derive(Debug)]
pub struct ImplVectorAdd {
    pub args: Vec<FullArg<ImplVectorAddArg>>,
}

impl ImplVectorAdd {
    /// Reads a document: declarations separated by `;`, at least one, a
    /// last `;` allowed. Stops at the first declaration that fails.
    pub fn parse(text: &str) -> (r: Result<Self, Diagnostic>)
        ensures
            document::<FullArg<ImplVectorAddArg>>(
                text@,
                ';',
                match r {
                    Ok(d) => Ok(models(d.args@)),
                    Err(e) => Err(e),
                },
            ),
            r matches Ok(d) ==> d.args@.len() >= 1,
    {
        match parse_document::<FullArg<ImplVectorAddArg>>(text, ';') {
            Ok(args) => Ok(ImplVectorAdd { args }),
            Err(e) => Err(e),
        }
    }

    /// Emits the implementations of all declarations, in order.
    pub fn emit(&self) -> (out: Vec<ImplUnit>)
        ensures
            models(out@) == all_units::<FullArg<ImplVectorAddArg>>(models(self.args@)),
    {
        emit_all(&self.args)
    }

    /// Reads a document and gives the text of the implementations of all
    /// its declarations, in order. A document that fails gives its one
    /// diagnostic and no text.
    pub fn generate(text: &str) -> (r: Result<String, Diagnostic>)
        ensures
            generated::<FullArg<ImplVectorAddArg>>(
                text@,
                ';',
                match r {
                    Ok(s) => Ok(s@),
                    Err(e) => Err(e),
                },
            ),
    {
        match Self::parse(text) {
            Ok(doc) => {
                let s = render_all(&doc.emit());
                proof {
                    let args = models(doc.args@);
                    assert(s@ == all_text(all_units::<FullArg<ImplVectorAddArg>>(args)));
                }
                Ok(s)
            },
            Err(e) => Err(e),
        }
    }
}

} // verus!
