//! Declarations of elementwise subtraction: `impl<..> Sub for [..] - [..]`.
use vstd::prelude::*;

use crate::arg::{document, parse_document, ArgParser, Parse};
use crate::attributes::{
    annotations_from, classification, present, AttrIdentFilter, AttrIdentFilterView,
};
use crate::declaration::{
    all_units, declares, emit_all, emit_parts, generated, mut_generics_of, units_of, Declaration,
    DeclarationView, Emit,
};
use crate::diagnostic::{Diagnostic, Operation, Span};
use crate::emit::{Flags, ImplUnit, ImplUnitView, TypeExpr};
use crate::generics::{left_scope_param, sanitized, with_left_scope, Generics};
use crate::laws::lemma_plain_gives_four;
use crate::model::{models, texts};
use crate::render::{all_text, render_all};
use crate::token::{Input, Source};
use crate::traits::Sub;

verus! {

/// A declaration of elementwise subtraction.
#[derive(Debug)]
pub struct ImplVectorSubArg {
    pub impl_token: Span,
    pub generics: Generics,
    /// Whether the generic parameters hold `'lhs`.
    pub contains_lhs: bool,
    pub trait_: Sub,
    pub for_: Span,
    pub bracket1: Span,
    pub lhs_tys: Vec<TypeExpr>,
    pub minus: Span,
    pub bracket2: Span,
    pub rhs_tys: Vec<TypeExpr>,
}

impl View for ImplVectorSubArg {
    type V = DeclarationView;

    open spec fn view(&self) -> DeclarationView {
        DeclarationView {
            operation: Operation::Sub,
            impl_token: self.impl_token,
            generics: self.generics@,
            contains_lhs: self.contains_lhs,
            trait_: self.trait_.ident,
            for_: self.for_,
            bracket1: self.bracket1,
            lhs_tys: models(self.lhs_tys@),
            symbol: self.minus,
            bracket2: self.bracket2,
            rhs_tys: models(self.rhs_tys@),
        }
    }
}

impl Parse for ImplVectorSubArg {
    open spec fn admits(
        src: Source,
        lo: int,
        hi: int,
        r: Result<DeclarationView, Diagnostic>,
    ) -> bool {
        declares(src, lo, hi, Operation::Sub, r)
    }

    fn parse(input: &Input, lo: usize, hi: usize) -> (r: Result<Self, Diagnostic>) {
        match Declaration::parse(input, lo, hi, Operation::Sub) {
            Err(e) => Err(e),
            Ok(d) => Ok(
                ImplVectorSubArg {
                    impl_token: d.impl_token,
                    generics: d.generics,
                    contains_lhs: d.contains_lhs,
                    trait_: Sub { ident: d.trait_ },
                    for_: d.for_,
                    bracket1: d.bracket1,
                    lhs_tys: d.lhs_tys,
                    minus: d.symbol,
                    bracket2: d.bracket2,
                    rhs_tys: d.rhs_tys,
                },
            ),
        }
    }
}

impl ImplVectorSubArg {
    /// Checks the region parameters of the declaration: fails where `'lhs`
    /// is declared more than once, and else says whether it is declared.
    /// A repeated `'rhs` does not fail.
    pub fn sanitize_generics(&self) -> (r: Result<bool, Diagnostic>)
        ensures
            r == sanitized(self@.generics),
    {
        self.generics.sanitize()
    }

    /// The generic parameters for the variants with a mutable left
    /// operand: the declared ones, with `'lhs` added at the end unless the
    /// declaration has it.
    pub fn mut_generics(&self) -> (r: Generics)
        ensures
            r@ == with_left_scope(self@.generics, self@.contains_lhs),
    {
        self.generics.with_left_scope(self.contains_lhs)
    }

    /// Emits the implementations of the declaration under `flags`.
    pub fn emit_with(&self, flags: Flags) -> (out: Vec<ImplUnit>)
        ensures
            models(out@) == units_of(self@, flags),
    {
        emit_parts(
            Operation::Sub,
            &self.generics,
            self.contains_lhs,
            &self.lhs_tys,
            &self.rhs_tys,
            flags,
        )
    }
}

/// A declaration with its annotations, classified twice: by the switches
/// for mutable operands, and by the switch that suppresses the base
/// variants. Annotations that neither list recognizes are kept among the
/// misses and change nothing.
#[derive(Debug)]
pub struct FullArg<T> {
    pub mutability: AttrIdentFilter,
    pub mut_only: AttrIdentFilter,
    pub arg: T,
}

/// The model of a [`FullArg`].
pub struct FullArgView<V> {
    pub mutability: AttrIdentFilterView,
    pub mut_only: AttrIdentFilterView,
    pub arg: V,
}

impl<T: View> View for FullArg<T> {
    type V = FullArgView<T::V>;

    open spec fn view(&self) -> FullArgView<T::V> {
        FullArgView { mutability: self.mutability@, mut_only: self.mut_only@, arg: self.arg@ }
    }
}

/// The names of the annotations that switch on mutable operands.
pub open spec fn mutability_names() -> Seq<Seq<char>> {
    seq!["mut_left"@, "mut_right"@, "mut_both"@]
}

/// The name of the annotation that suppresses the base variants.
pub open spec fn mut_only_names() -> Seq<Seq<char>> {
    seq!["mut_only"@]
}

/// What the annotations of an elementwise declaration switch on. Each
/// annotation counts where it stands exactly once. `mut_both` switches on
/// both sides. A flag in parentheses, as in `mut_only(no_std)`, is kept
/// with the annotation and changes nothing of what it switches on.
pub open spec fn elementwise_flags<V>(v: FullArgView<V>) -> Flags {
    Flags {
        mutate_left: present(v.mutability.base_attrs, "mut_left"@, false) || present(
            v.mutability.base_attrs,
            "mut_both"@,
            false,
        ),
        mutate_right: present(v.mutability.base_attrs, "mut_right"@, false) || present(
            v.mutability.base_attrs,
            "mut_both"@,
            false,
        ),
        suppress_owned: present(v.mut_only.base_attrs, "mut_only"@, false),
    }
}

/// A declaration without annotations switches nothing on: it gives the
/// four base implementations per pair and no other.
pub proof fn lemma_no_annotations_no_flags(v: FullArgView<DeclarationView>)
    requires
        v.mutability.base_attrs.len() == 0,
        v.mut_only.base_attrs.len() == 0,
    ensures
        elementwise_flags(v) == (Flags {
            mutate_left: false,
            mutate_right: false,
            suppress_owned: false,
        }),
        units_of(v.arg, elementwise_flags(v)).len() == v.arg.lhs_tys.len() * v.arg.rhs_tys.len()
            * 4,
{
    reveal(Seq::filter);
    lemma_plain_gives_four(
        v.arg.operation,
        v.arg.generics,
        mut_generics_of(v.arg),
        v.arg.lhs_tys,
        v.arg.rhs_tys,
    );
}

impl<T: Parse> Parse for FullArg<T> {
    open spec fn admits(
        src: Source,
        lo: int,
        hi: int,
        r: Result<FullArgView<T::V>, Diagnostic>,
    ) -> bool {
        match annotations_from(src, lo, hi) {
            Err(e) => r == Err::<FullArgView<T::V>, Diagnostic>(e),
            Ok(a) => match r {
                Ok(v) => {
                    &&& v.mutability == classification(a.annotations, mutability_names())
                    &&& v.mut_only == classification(a.annotations, mut_only_names())
                    &&& T::admits(src, a.next, hi, Ok(v.arg))
                },
                Err(e) => T::admits(src, a.next, hi, Err(e)),
            },
        }
    }

    fn parse(input: &Input, lo: usize, hi: usize) -> (r: Result<Self, Diagnostic>) {
        match AttrIdentFilter::parse_filter(input, lo, hi, vec![]) {
            Ok((attr_filter, next)) => {
                let names: Vec<&'static str> = vec!["mut_left", "mut_right", "mut_both"];
                let only: Vec<&'static str> = vec!["mut_only"];
                proof {
                    assert(texts(names@) =~= mutability_names());
                    assert(texts(only@) =~= mut_only_names());
                }
                let mutability = attr_filter.refilter(names);
                let mut_only = attr_filter.refilter(only);
                match T::parse(input, next, hi) {
                    Ok(arg) => Ok(FullArg { mutability, mut_only, arg }),
                    Err(e) => Err(e),
                }
            },
            Err(e) => Err(e),
        }
    }
}

impl<T: Parse> ArgParser for FullArg<T> {

}

impl<T: View> FullArg<T> {
    /// What the annotations switch on.
    pub fn flags(&self) -> (f: Flags)
        ensures
            f == elementwise_flags(self@),
    {
        let both = self.mutability.match_against("mut_both", false);
        Flags {
            mutate_left: self.mutability.match_against("mut_left", false) || both,
            mutate_right: self.mutability.match_against("mut_right", false) || both,
            suppress_owned: self.mut_only.match_against("mut_only", false),
        }
    }
}

/// Whether the region parameter `'lhs` has to be added for the variants
/// with a mutable left operand: they are switched on, and the declaration
/// does not have it.
pub open spec fn region_required(v: FullArgView<DeclarationView>) -> bool {
    elementwise_flags(v).mutate_left && !v.arg.contains_lhs
}

/// Where the region parameter is required, the variants with a mutable
/// left operand carry the declared parameters followed by `'lhs`; where
/// it is not, they carry the declared ones.
pub proof fn lemma_region_required(v: FullArgView<DeclarationView>)
    requires
        v.arg.operation.is_elementwise(),
    ensures
        region_required(v) ==> mut_generics_of(v.arg).params == v.arg.generics.params.push(
            left_scope_param(),
        ),
        v.arg.contains_lhs ==> mut_generics_of(v.arg) == v.arg.generics,
{
}

impl FullArg<ImplVectorSubArg> {
    /// Whether `'lhs` has to be added for the variants with a mutable left
    /// operand.
    pub fn region_required(&self) -> (b: bool)
        ensures
            b == region_required(self@),
    {
        self.flags().mutate_left && !self.arg.contains_lhs
    }
}

impl Emit for FullArg<ImplVectorSubArg> {
    open spec fn units(v: FullArgView<DeclarationView>) -> Seq<ImplUnitView> {
        units_of(v.arg, elementwise_flags(v))
    }

    fn emit(&self) -> (out: Vec<ImplUnit>) {
        self.arg.emit_with(self.flags())
    }
}

/// A document of declarations of elementwise subtraction.
#[derive(Debug)]
pub struct ImplVectorSub {
    pub args: Vec<FullArg<ImplVectorSubArg>>,
}

impl ImplVectorSub {
    /// Reads a document: declarations separated by `;`, at least one, a
    /// last `;` allowed. Stops at the first declaration that fails.
    pub fn parse(text: &str) -> (r: Result<Self, Diagnostic>)
        ensures
            document::<FullArg<ImplVectorSubArg>>(
                text@,
                ';',
                match r {
                    Ok(d) => Ok(models(d.args@)),
                    Err(e) => Err(e),
                },
            ),
            r matches Ok(d) ==> d.args@.len() >= 1,
    {
        match parse_document::<FullArg<ImplVectorSubArg>>(text, ';') {
            Ok(args) => Ok(ImplVectorSub { args }),
            Err(e) => Err(e),
        }
    }

    /// Emits the implementations of all declarations, in order.
    pub fn emit(&self) -> (out: Vec<ImplUnit>)
        ensures
            models(out@) == all_units::<FullArg<ImplVectorSubArg>>(models(self.args@)),
    {
        emit_all(&self.args)
    }

    /// Reads a document and gives the text of the implementations of all
    /// its declarations, in order. A document that fails gives its one
    /// diagnostic and no text.
    pub fn generate(text: &str) -> (r: Result<String, Diagnostic>)
        ensures
            generated::<FullArg<ImplVectorSubArg>>(
                text@,
                ';',
                match r {
                    Ok(s) => Ok(s@),
                    Err(e) => Err(e),
                },
            ),
    {
        match Self::parse(text) {
            Ok(doc) => {
                let s = render_all(&doc.emit());
                proof {
                    let args = models(doc.args@);
                    assert(s@ == all_text(all_units::<FullArg<ImplVectorSubArg>>(args)));
                }
                Ok(s)
            },
            Err(e) => Err(e),
        }
    }
}

} // verus!
