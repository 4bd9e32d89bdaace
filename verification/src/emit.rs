//! The implementations that a declaration asks for, as records, in the
//! order in which they are emitted.
use vstd::prelude::*;

use crate::diagnostic::{Operation, Span};
use crate::generics::{Generics, GenericsView};
use crate::model::{lemma_models_push, models};

verus! {

/// How an operand is taken.
#[derive(Clone, Copy, Debug, PartialEq, Eq, Structural)]
pub enum Ownership {
    /// By value: `A`.
    Owned,
    /// By shared reference: `&A`.
    Ref,
    /// By mutable reference: `&mut A`.
    MutRef,
}

/// How the two operands of one implementation are taken: the receiver is
/// the left operand, the argument the right one.
#[derive(Clone, Copy, Debug, PartialEq, Eq, Structural)]
pub struct Variant {
    pub receiver: Ownership,
    pub argument: Ownership,
}

/// What the annotations of a declaration switch on.
#[derive(Clone, Copy, Debug, PartialEq, Eq, Structural)]
pub struct Flags {
    /// Emit the variants whose left operand is a mutable reference.
    pub mutate_left: bool,
    /// Emit the variants whose right operand is a mutable reference.
    pub mutate_right: bool,
    /// Keep only the variants that mutate the left operand. Elementwise
    /// operations only; a dot product has no such switch.
    pub suppress_owned: bool,
}

/// A type of a type list: its text as written, and its place in the source.
#[derive(Debug)]
pub struct TypeExpr {
    pub text: String,
    pub span: Span,
}

/// The model of a [`TypeExpr`].
pub struct TypeExprView {
    pub text: Seq<char>,
    pub span: Span,
}

impl View for TypeExpr {
    type V = TypeExprView;

    open spec fn view(&self) -> TypeExprView {
        TypeExprView { text: self.text@, span: self.span }
    }
}

impl Clone for TypeExpr {
    fn clone(&self) -> (r: Self)
        ensures
            r == *self,
    {
        TypeExpr { text: self.text.clone(), span: self.span }
    }
}

/// One implementation to generate.
#[derive(Debug)]
pub struct ImplUnit {
    pub operation: Operation,
    pub receiver: Ownership,
    pub argument: Ownership,
    pub generics: Generics,
    pub lhs: String,
    pub rhs: String,
}

/// The model of an [`ImplUnit`].
pub struct ImplUnitView {
    pub operation: Operation,
    pub receiver: Ownership,
    pub argument: Ownership,
    pub generics: GenericsView,
    pub lhs: Seq<char>,
    pub rhs: Seq<char>,
}

impl View for ImplUnit {
    type V = ImplUnitView;

    open spec fn view(&self) -> ImplUnitView {
        ImplUnitView {
            operation: self.operation,
            receiver: self.receiver,
            argument: self.argument,
            generics: self.generics@,
            lhs: self.lhs@,
            rhs: self.rhs@,
        }
    }
}

impl ImplUnit {
    /// Whether the implementation changes its receiver in place and hands
    /// it back, as opposed to computing a new value.
    pub open spec fn in_place(v: ImplUnitView) -> bool {
        v.operation.is_elementwise() && v.receiver == Ownership::MutRef
    }

    pub fn is_in_place(&self) -> (b: bool)
        ensures
            b == Self::in_place(self@),
    {
        let elementwise = match self.operation {
            Operation::Mul => false,
            _ => true,
        };
        let mutable = match self.receiver {
            Ownership::MutRef => true,
            _ => false,
        };
        elementwise && mutable
    }
}

/// The four variants that take each operand by value or by shared
/// reference, in emission order.
pub open spec fn base_variants() -> Seq<Variant> {
    seq![
        Variant { receiver: Ownership::Owned, argument: Ownership::Owned },
        Variant { receiver: Ownership::Owned, argument: Ownership::Ref },
        Variant { receiver: Ownership::Ref, argument: Ownership::Owned },
        Variant { receiver: Ownership::Ref, argument: Ownership::Ref },
    ]
}

/// The two variants with a mutable left operand, in emission order.
pub open spec fn left_variants() -> Seq<Variant> {
    seq![
        Variant { receiver: Ownership::MutRef, argument: Ownership::Owned },
        Variant { receiver: Ownership::MutRef, argument: Ownership::Ref },
    ]
}

/// The two variants with a mutable right operand, in emission order.
pub open spec fn right_variants() -> Seq<Variant> {
    seq![
        Variant { receiver: Ownership::Owned, argument: Ownership::MutRef },
        Variant { receiver: Ownership::Ref, argument: Ownership::MutRef },
    ]
}

/// The variant with both operands mutable.
pub open spec fn both_variants() -> Seq<Variant> {
    seq![Variant { receiver: Ownership::MutRef, argument: Ownership::MutRef }]
}

/// Whether the variants that leave the left operand alone are left out.
pub open spec fn suppressed(op: Operation, flags: Flags) -> bool {
    op.is_elementwise() && flags.suppress_owned
}

/// The variants emitted for one pair of types, in emission order: the
/// four base variants unless suppressed; the two with a mutable left
/// operand where `mutate_left` is on; the two with a mutable right operand
/// where `mutate_right` is on and nothing is suppressed; the one with both
/// mutable where both are on.
pub open spec fn variants(op: Operation, flags: Flags) -> Seq<Variant> {
    (if suppressed(op, flags) {
        Seq::<Variant>::empty()
    } else {
        base_variants()
    }) + (if flags.mutate_left {
        left_variants()
    } else {
        Seq::<Variant>::empty()
    }) + (if flags.mutate_right && !suppressed(op, flags) {
        right_variants()
    } else {
        Seq::<Variant>::empty()
    }) + (if flags.mutate_left && flags.mutate_right {
        both_variants()
    } else {
        Seq::<Variant>::empty()
    })
}

/// The implementation of `op` for the pair `(lhs, rhs)` in the variant
/// `v`. Where `op` is elementwise and the receiver is mutable it carries
/// the generic parameters `mg`, else `g`.
pub open spec fn unit_of(
    op: Operation,
    g: GenericsView,
    mg: GenericsView,
    lhs: Seq<char>,
    rhs: Seq<char>,
    v: Variant,
) -> ImplUnitView {
    ImplUnitView {
        operation: op,
        receiver: v.receiver,
        argument: v.argument,
        generics: if op.is_elementwise() && v.receiver == Ownership::MutRef {
            mg
        } else {
            g
        },
        lhs,
        rhs,
    }
}

/// The implementations for one pair of types, in emission order.
pub open spec fn pair_units(
    op: Operation,
    g: GenericsView,
    mg: GenericsView,
    lhs: Seq<char>,
    rhs: Seq<char>,
    flags: Flags,
) -> Seq<ImplUnitView> {
    variants(op, flags).map_values(|v: Variant| unit_of(op, g, mg, lhs, rhs, v))
}

/// The implementations for one left type and each of `rhs`, in the order
/// of `rhs`.
pub open spec fn row_units(
    op: Operation,
    g: GenericsView,
    mg: GenericsView,
    lhs: Seq<char>,
    rhs: Seq<TypeExprView>,
    flags: Flags,
) -> Seq<ImplUnitView>
    decreases rhs.len(),
{
    if rhs.len() == 0 {
        Seq::empty()
    } else {
        row_units(op, g, mg, lhs, rhs.drop_last(), flags) + pair_units(
            op,
            g,
            mg,
            lhs,
            rhs.last().text,
            flags,
        )
    }
}

/// The implementations for every pair of a type of `lhs` and a type of
/// `rhs`: the left types in order, and for each the right types in order.
pub open spec fn emitted(
    op: Operation,
    g: GenericsView,
    mg: GenericsView,
    lhs: Seq<TypeExprView>,
    rhs: Seq<TypeExprView>,
    flags: Flags,
) -> Seq<ImplUnitView>
    decreases lhs.len(),
{
    if lhs.len() == 0 {
        Seq::empty()
    } else {
        emitted(op, g, mg, lhs.drop_last(), rhs, flags) + row_units(
            op,
            g,
            mg,
            lhs.last().text,
            rhs,
            flags,
        )
    }
}

/// The variants for one pair of types.
pub fn variants_of(op: Operation, flags: Flags) -> (out: Vec<Variant>)
    ensures
        out@ == variants(op, flags),
{
    let elementwise = match op {
        Operation::Mul => false,
        _ => true,
    };
    let suppress = elementwise && flags.suppress_owned;
    let mut out: Vec<Variant> = Vec::new();
    if !suppress {
        out.push(Variant { receiver: Ownership::Owned, argument: Ownership::Owned });
        out.push(Variant { receiver: Ownership::Owned, argument: Ownership::Ref });
        out.push(Variant { receiver: Ownership::Ref, argument: Ownership::Owned });
        out.push(Variant { receiver: Ownership::Ref, argument: Ownership::Ref });
    }
    if flags.mutate_left {
        out.push(Variant { receiver: Ownership::MutRef, argument: Ownership::Owned });
        out.push(Variant { receiver: Ownership::MutRef, argument: Ownership::Ref });
    }
    if flags.mutate_right && !suppress {
        out.push(Variant { receiver: Ownership::Owned, argument: Ownership::MutRef });
        out.push(Variant { receiver: Ownership::Ref, argument: Ownership::MutRef });
    }
    if flags.mutate_left && flags.mutate_right {
        out.push(Variant { receiver: Ownership::MutRef, argument: Ownership::MutRef });
    }
    proof {
        assert(out@ =~= variants(op, flags));
    }
    out
}

/// The implementation of `op` for one pair of types in one variant.
pub fn make_unit(
    op: Operation,
    generics: &Generics,
    mut_generics: &Generics,
    lhs: &TypeExpr,
    rhs: &TypeExpr,
    v: Variant,
) -> (u: ImplUnit)
    ensures
        u@ == unit_of(op, generics@, mut_generics@, lhs@.text, rhs@.text, v),
{
    let elementwise = match op {
        Operation::Mul => false,
        _ => true,
    };
    let mutable = match v.receiver {
        Ownership::MutRef => true,
        _ => false,
    };
    let g = if elementwise && mutable {
        mut_generics.clone()
    } else {
        generics.clone()
    };
    ImplUnit {
        operation: op,
        receiver: v.receiver,
        argument: v.argument,
        generics: g,
        lhs: lhs.text.clone(),
        rhs: rhs.text.clone(),
    }
}

/// Emits the implementations of `op` for every pair of a type of `lhs` and
/// a type of `rhs`, left types in order and for each the right types in
/// order, and for each pair its variants in their fixed order.
pub fn emit(
    op: Operation,
    generics: &Generics,
    mut_generics: &Generics,
    lhs: &Vec<TypeExpr>,
    rhs: &Vec<TypeExpr>,
    flags: Flags,
) -> (out: Vec<ImplUnit>)
    ensures
        models(out@) == emitted(
            op,
            generics@,
            mut_generics@,
            models(lhs@),
            models(rhs@),
            flags,
        ),
{
    let ghost g = generics@;
    let ghost mg = mut_generics@;
    let ghost ls = models(lhs@);
    let ghost rs = models(rhs@);
    let kinds = variants_of(op, flags);
    let mut out: Vec<ImplUnit> = Vec::new();
    let mut i: usize = 0;
    proof {
        assert(models(out@) =~= emitted(op, g, mg, ls.take(0), rs, flags));
    }
    while i < lhs.len()
        invariant
            i <= lhs.len(),
            g == generics@,
            mg == mut_generics@,
            ls == models(lhs@),
            rs == models(rhs@),
            kinds@ == variants(op, flags),
            models(out@) == emitted(op, g, mg, ls.take(i as int), rs, flags),
        decreases lhs.len() - i,
    {
        let ghost done = models(out@);
        let ghost l = ls[i as int].text;
        let mut j: usize = 0;
        proof {
            assert(row_units(op, g, mg, l, rs.take(0), flags) =~= Seq::<ImplUnitView>::empty());
            assert(models(out@) =~= done + row_units(op, g, mg, l, rs.take(0), flags));
        }
        while j < rhs.len()
            invariant
                i < lhs.len(),
                j <= rhs.len(),
                g == generics@,
                mg == mut_generics@,
                ls == models(lhs@),
                rs == models(rhs@),
                l == ls[i as int].text,
                kinds@ == variants(op, flags),
                models(out@) == done + row_units(op, g, mg, l, rs.take(j as int), flags),
            decreases rhs.len() - j,
        {
            let ghost row = models(out@);
            let ghost r = rs[j as int].text;
            let mut m: usize = 0;
            proof {
                assert(models(out@) =~= row + pair_units(op, g, mg, l, r, flags).take(0));
            }
            while m < kinds.len()
                invariant
                    i < lhs.len(),
                    j < rhs.len(),
                    m <= kinds.len(),
                    g == generics@,
                    mg == mut_generics@,
                    ls == models(lhs@),
                    rs == models(rhs@),
                    l == ls[i as int].text,
                    r == rs[j as int].text,
                    kinds@ == variants(op, flags),
                    models(out@) == row + pair_units(op, g, mg, l, r, flags).take(m as int),
                decreases kinds.len() - m,
            {
                let u = make_unit(op, generics, mut_generics, &lhs[i], &rhs[j], kinds[m]);
                proof {
                    let pair = pair_units(op, g, mg, l, r, flags);
                    lemma_models_push(out@, u);
                    assert(pair.take(m + 1) =~= pair.take(m as int).push(u@));
                    assert(row + pair.take(m + 1) =~= (row + pair.take(m as int)).push(u@));
                }
                out.push(u);
                m += 1;
            }
            proof {
                let pair = pair_units(op, g, mg, l, r, flags);
                assert(pair.take(kinds.len() as int) =~= pair);
                assert(rs.take(j + 1).drop_last() =~= rs.take(j as int));
                assert(models(out@) =~= done + row_units(op, g, mg, l, rs.take(j + 1), flags));
            }
            j += 1;
        }
        proof {
            assert(rs.take(rhs.len() as int) =~= rs);
            assert(ls.take(i + 1).drop_last() =~= ls.take(i as int));
        }
        i += 1;
    }
    proof {
        assert(ls.take(lhs.len() as int) =~= ls);
    }
    out
}

} // verus!
