//! What holds of every emission: how many implementations there are, in
//! which order they come, and what each switch adds.
use vstd::prelude::*;

use crate::diagnostic::{Diagnostic, Operation};
use crate::emit::{
    base_variants, both_variants, emitted, left_variants, pair_units, right_variants, row_units,
    suppressed, unit_of, variants, Flags, ImplUnitView, TypeExprView, Variant,
};
use crate::generics::{
    left_scope, lemma_left_scope_added_once, sanitized, scope_count, with_left_scope, GenericsView,
};

verus! {

/// Where the implementation of pair `(i, j)` in variant `m` stands among
/// the emitted ones, with `r` right types and `k` variants per pair.
pub open spec fn position(i: int, j: int, m: int, r: int, k: int) -> int {
    (i * r + j) * k + m
}

proof fn lemma_position(i: int, j: int, m: int, n: int, r: int, k: int)
    requires
        0 <= i < n,
        0 <= j < r,
        0 <= m < k,
    ensures
        position(i, j, m, r, k) == i * (r * k) + (j * k + m),
        0 <= j * k + m < r * k,
        0 <= position(i, j, m, r, k) < n * (r * k),
        i < n - 1 ==> position(i, j, m, r, k) < (n - 1) * (r * k),
        j < r - 1 ==> j * k + m < (r - 1) * k,
        n * r * k == n * (r * k),
{
    assert((i * r + j) * k + m == i * (r * k) + (j * k + m)) by (nonlinear_arith);
    assert(0 <= j * k + m < r * k) by (nonlinear_arith)
        requires
            0 <= j < r,
            0 <= m < k,
    ;
    assert(i * (r * k) + (r * k) <= n * (r * k)) by (nonlinear_arith)
        requires
            0 <= i < n,
            0 <= r * k,
    ;
    assert(0 <= i * (r * k)) by (nonlinear_arith)
        requires
            0 <= i,
            0 <= r * k,
    ;
    if i < n - 1 {
        assert(i * (r * k) + (r * k) <= (n - 1) * (r * k)) by (nonlinear_arith)
            requires
                0 <= i < n - 1,
                0 <= r * k,
        ;
    }
    if j < r - 1 {
        assert(j * k + k <= (r - 1) * k) by (nonlinear_arith)
            requires
                0 <= j < r - 1,
                0 <= k,
        ;
    }
    assert(n * r * k == n * (r * k)) by (nonlinear_arith);
}

/// One left type gives as many implementations as there are right types
/// times the variants per pair.
pub proof fn lemma_row_len(
    op: Operation,
    g: GenericsView,
    mg: GenericsView,
    lhs: Seq<char>,
    rhs: Seq<TypeExprView>,
    flags: Flags,
)
    ensures
        row_units(op, g, mg, lhs, rhs, flags).len() == rhs.len() * variants(op, flags).len(),
    decreases rhs.len(),
{
    let k = variants(op, flags).len() as int;
    if rhs.len() > 0 {
        lemma_row_len(op, g, mg, lhs, rhs.drop_last(), flags);
        assert((rhs.len() - 1) * k + k == rhs.len() * k) by (nonlinear_arith);
    } else {
        assert(0 * k == 0) by (nonlinear_arith);
    }
}

/// A declaration gives as many implementations as it has pairs of a left
/// and a right type, times the variants per pair.
pub proof fn lemma_emitted_len(
    op: Operation,
    g: GenericsView,
    mg: GenericsView,
    lhs: Seq<TypeExprView>,
    rhs: Seq<TypeExprView>,
    flags: Flags,
)
    ensures
        emitted(op, g, mg, lhs, rhs, flags).len() == lhs.len() * rhs.len() * variants(
            op,
            flags,
        ).len(),
    decreases lhs.len(),
{
    let k = variants(op, flags).len() as int;
    let r = rhs.len() as int;
    if lhs.len() > 0 {
        lemma_emitted_len(op, g, mg, lhs.drop_last(), rhs, flags);
        lemma_row_len(op, g, mg, lhs.last().text, rhs, flags);
        assert((lhs.len() - 1) * r * k + r * k == lhs.len() * r * k) by (nonlinear_arith);
    } else {
        assert(0 * r * k == 0) by (nonlinear_arith);
    }
}

proof fn lemma_row_index(
    op: Operation,
    g: GenericsView,
    mg: GenericsView,
    lhs: Seq<char>,
    rhs: Seq<TypeExprView>,
    flags: Flags,
    j: int,
    m: int,
)
    requires
        0 <= j < rhs.len(),
        0 <= m < variants(op, flags).len(),
    ensures
        0 <= j * variants(op, flags).len() + m < row_units(op, g, mg, lhs, rhs, flags).len(),
        row_units(op, g, mg, lhs, rhs, flags)[j * variants(op, flags).len() + m] == unit_of(
            op,
            g,
            mg,
            lhs,
            rhs[j].text,
            variants(op, flags)[m],
        ),
    decreases rhs.len(),
{
    let k = variants(op, flags).len() as int;
    let r = rhs.len() as int;
    lemma_row_len(op, g, mg, lhs, rhs, flags);
    lemma_row_len(op, g, mg, lhs, rhs.drop_last(), flags);
    lemma_position(0, j, m, 1, r, k);
    if j < r - 1 {
        lemma_row_index(op, g, mg, lhs, rhs.drop_last(), flags, j, m);
    } else {
        assert(j * k + m == (r - 1) * k + m) by (nonlinear_arith)
            requires
                j == r - 1,
        ;
    }
}

/// Emission order: the implementations come by left type, then by right
/// type, then by variant. The one for the `i`-th left type, the `j`-th
/// right type and the `m`-th variant stands at `position(i, j, m, ..)`.
pub proof fn lemma_emitted_index(
    op: Operation,
    g: GenericsView,
    mg: GenericsView,
    lhs: Seq<TypeExprView>,
    rhs: Seq<TypeExprView>,
    flags: Flags,
    i: int,
    j: int,
    m: int,
)
    requires
        0 <= i < lhs.len(),
        0 <= j < rhs.len(),
        0 <= m < variants(op, flags).len(),
    ensures
        0 <= position(i, j, m, rhs.len() as int, variants(op, flags).len() as int) < emitted(
            op,
            g,
            mg,
            lhs,
            rhs,
            flags,
        ).len(),
        emitted(op, g, mg, lhs, rhs, flags)[position(
            i,
            j,
            m,
            rhs.len() as int,
            variants(op, flags).len() as int,
        )] == unit_at(op, g, mg, lhs, rhs, flags, i, j, m),
    decreases lhs.len(),
{
    let k = variants(op, flags).len() as int;
    let r = rhs.len() as int;
    let n = lhs.len() as int;
    lemma_emitted_len(op, g, mg, lhs, rhs, flags);
    lemma_emitted_len(op, g, mg, lhs.drop_last(), rhs, flags);
    lemma_position(i, j, m, n, r, k);
    assert((n - 1) * r * k == (n - 1) * (r * k)) by (nonlinear_arith);
    if i < n - 1 {
        lemma_emitted_index(op, g, mg, lhs.drop_last(), rhs, flags, i, j, m);
    } else {
        lemma_row_index(op, g, mg, lhs.last().text, rhs, flags, j, m);
    }
}

/// Without any switch an elementwise declaration gives exactly four
/// implementations per pair: by value with by value, by value with by
/// reference, by reference with by value, by reference with by reference.
pub proof fn lemma_plain_gives_four(
    op: Operation,
    g: GenericsView,
    mg: GenericsView,
    lhs: Seq<TypeExprView>,
    rhs: Seq<TypeExprView>,
)
    ensures
        ({
            let none = Flags { mutate_left: false, mutate_right: false, suppress_owned: false };
            &&& variants(op, none) == base_variants()
            &&& emitted(op, g, mg, lhs, rhs, none).len() == lhs.len() * rhs.len() * 4
            &&& forall|u: ImplUnitView| #[trigger]
                emitted(op, g, mg, lhs, rhs, none).contains(u) ==> u.generics == g
        }),
{
    let none = Flags { mutate_left: false, mutate_right: false, suppress_owned: false };
    assert(variants(op, none) =~= base_variants());
    lemma_emitted_len(op, g, mg, lhs, rhs, none);
    assert forall|u: ImplUnitView| #[trigger]
        emitted(op, g, mg, lhs, rhs, none).contains(u) implies u.generics == g by {
        lemma_units_are_pairs(op, g, mg, lhs, rhs, none, u);
    }
}

/// The implementation for the `i`-th left type, the `j`-th right type and
/// the `m`-th variant.
pub open spec fn unit_at(
    op: Operation,
    g: GenericsView,
    mg: GenericsView,
    lhs: Seq<TypeExprView>,
    rhs: Seq<TypeExprView>,
    flags: Flags,
    i: int,
    j: int,
    m: int,
) -> ImplUnitView {
    unit_of(op, g, mg, lhs[i].text, rhs[j].text, variants(op, flags)[m])
}

/// Every emitted implementation is the one of some pair of types in some
/// variant: nothing else is emitted.
pub proof fn lemma_units_are_pairs(
    op: Operation,
    g: GenericsView,
    mg: GenericsView,
    lhs: Seq<TypeExprView>,
    rhs: Seq<TypeExprView>,
    flags: Flags,
    u: ImplUnitView,
)
    requires
        emitted(op, g, mg, lhs, rhs, flags).contains(u),
    ensures
        exists|i: int, j: int, m: int|
            0 <= i < lhs.len() && 0 <= j < rhs.len() && 0 <= m < variants(op, flags).len() && u
                == #[trigger] unit_at(op, g, mg, lhs, rhs, flags, i, j, m),
    decreases lhs.len(),
{
    let all = emitted(op, g, mg, lhs, rhs, flags);
    let at = choose|at: int| 0 <= at < all.len() && all[at] == u;
    if lhs.len() > 0 {
        let prev = emitted(op, g, mg, lhs.drop_last(), rhs, flags);
        let row = row_units(op, g, mg, lhs.last().text, rhs, flags);
        if at < prev.len() {
            assert(prev[at] == u);
            lemma_units_are_pairs(op, g, mg, lhs.drop_last(), rhs, flags, u);
            let (i, j, m) = choose|i: int, j: int, m: int|
                0 <= i < lhs.drop_last().len() && 0 <= j < rhs.len() && 0 <= m < variants(
                    op,
                    flags,
                ).len() && u == #[trigger] unit_at(
                    op,
                    g,
                    mg,
                    lhs.drop_last(),
                    rhs,
                    flags,
                    i,
                    j,
                    m,
                );
            assert(lhs[i] == lhs.drop_last()[i]);
            assert(u == unit_at(op, g, mg, lhs, rhs, flags, i, j, m));
        } else {
            assert(row[at - prev.len()] == u);
            lemma_row_units_are_pairs(op, g, mg, lhs, rhs, flags, lhs.len() - 1, u);
        }
    }
}

proof fn lemma_row_units_are_pairs(
    op: Operation,
    g: GenericsView,
    mg: GenericsView,
    lhs: Seq<TypeExprView>,
    rhs: Seq<TypeExprView>,
    flags: Flags,
    i: int,
    u: ImplUnitView,
)
    requires
        0 <= i < lhs.len(),
        row_units(op, g, mg, lhs[i].text, rhs, flags).contains(u),
    ensures
        exists|j: int, m: int|
            0 <= j < rhs.len() && 0 <= m < variants(op, flags).len() && u == #[trigger] unit_at(
                op,
                g,
                mg,
                lhs,
                rhs,
                flags,
                i,
                j,
                m,
            ),
    decreases rhs.len(),
{
    let all = row_units(op, g, mg, lhs[i].text, rhs, flags);
    let at = choose|at: int| 0 <= at < all.len() && all[at] == u;
    if rhs.len() > 0 {
        let prev = row_units(op, g, mg, lhs[i].text, rhs.drop_last(), flags);
        let pair = pair_units(op, g, mg, lhs[i].text, rhs.last().text, flags);
        if at < prev.len() {
            assert(prev[at] == u);
            lemma_row_units_are_pairs(op, g, mg, lhs, rhs.drop_last(), flags, i, u);
            let (j, m) = choose|j: int, m: int|
                0 <= j < rhs.drop_last().len() && 0 <= m < variants(op, flags).len() && u
                    == #[trigger] unit_at(op, g, mg, lhs, rhs.drop_last(), flags, i, j, m);
            assert(rhs[j] == rhs.drop_last()[j]);
            assert(u == unit_at(op, g, mg, lhs, rhs, flags, i, j, m));
        } else {
            let m = at - prev.len();
            let j = rhs.len() - 1;
            assert(pair[m] == u);
            assert(u == unit_at(op, g, mg, lhs, rhs, flags, i, j, m));
        }
    }
}

/// Switching on the variants with a mutable left operand, and nothing
/// else, adds exactly two implementations per pair, after the four base
/// ones. The two carry the generic parameters extended by `'lhs`, which
/// then holds `'lhs` exactly once, whether or not the declaration had it;
/// the four base ones carry the declaration's own.
pub proof fn lemma_mutate_left_adds_two(
    op: Operation,
    g: GenericsView,
    lhs: Seq<char>,
    rhs: Seq<char>,
)
    requires
        op.is_elementwise(),
        sanitized(g) is Ok,
    ensures
        ({
            let none = Flags { mutate_left: false, mutate_right: false, suppress_owned: false };
            let left = Flags { mutate_left: true, mutate_right: false, suppress_owned: false };
            let mg = with_left_scope(g, sanitized(g)->Ok_0);
            let units = pair_units(op, g, mg, lhs, rhs, left);
            &&& variants(op, left) == variants(op, none) + left_variants()
            &&& units.len() == pair_units(op, g, mg, lhs, rhs, none).len() + 2
            &&& units.len() == 6
            &&& forall|m: int| 0 <= m < 4 ==> (#[trigger] units[m]).generics == g
            &&& forall|m: int| 4 <= m < 6 ==> (#[trigger] units[m]).generics == mg
            &&& scope_count(mg.params, left_scope()) == 1
            &&& sanitized(g) == Ok::<bool, Diagnostic>(true) ==> mg == g
        }),
{
    let none = Flags { mutate_left: false, mutate_right: false, suppress_owned: false };
    let left = Flags { mutate_left: true, mutate_right: false, suppress_owned: false };
    assert(variants(op, none) =~= base_variants());
    assert(variants(op, left) =~= base_variants() + left_variants());
    lemma_left_scope_added_once(g);
}

/// With the base variants suppressed and no other switch on, an
/// elementwise declaration gives nothing.
pub proof fn lemma_suppressed_gives_nothing(
    op: Operation,
    g: GenericsView,
    mg: GenericsView,
    lhs: Seq<TypeExprView>,
    rhs: Seq<TypeExprView>,
)
    requires
        op.is_elementwise(),
    ensures
        ({
            let only = Flags { mutate_left: false, mutate_right: false, suppress_owned: true };
            &&& variants(op, only).len() == 0
            &&& emitted(op, g, mg, lhs, rhs, only).len() == 0
        }),
{
    let only = Flags { mutate_left: false, mutate_right: false, suppress_owned: true };
    assert(variants(op, only) =~= Seq::<Variant>::empty());
    lemma_emitted_len(op, g, mg, lhs, rhs, only);
    assert(lhs.len() * rhs.len() * 0 == 0) by (nonlinear_arith);
}

/// How many variants a pair has, by the switches.
pub open spec fn variant_count(op: Operation, flags: Flags) -> int {
    (if suppressed(op, flags) {
        0int
    } else {
        4int
    }) + (if flags.mutate_left {
        2int
    } else {
        0int
    }) + (if flags.mutate_right && !suppressed(op, flags) {
        2int
    } else {
        0int
    }) + (if flags.mutate_left && flags.mutate_right {
        1int
    } else {
        0int
    })
}

/// The number of variants per pair, for every operation and every
/// combination of switches.
pub proof fn lemma_variant_count(op: Operation, flags: Flags)
    ensures
        variants(op, flags).len() == variant_count(op, flags),
{
}

/// A dot product always gives the four base implementations per pair,
/// first and in their order, whatever the switches; each of the two
/// switches adds exactly two, and both together one more. All of them carry
/// the declaration's own generic parameters.
pub proof fn lemma_dot_product_variants(
    flags: Flags,
    g: GenericsView,
    mg: GenericsView,
    lhs: Seq<char>,
    rhs: Seq<char>,
)
    ensures
        variants(Operation::Mul, flags).take(4) == base_variants(),
        variants(Operation::Mul, flags).len() == 4 + (if flags.mutate_left {
            2int
        } else {
            0int
        }) + (if flags.mutate_right {
            2int
        } else {
            0int
        }) + (if flags.mutate_left && flags.mutate_right {
            1int
        } else {
            0int
        }),
        flags.mutate_left ==> variants(Operation::Mul, flags).subrange(4, 6) == left_variants(),
        flags.mutate_right && !flags.mutate_left ==> variants(Operation::Mul, flags).subrange(4, 6)
            == right_variants(),
        flags.mutate_right && flags.mutate_left ==> variants(Operation::Mul, flags).subrange(6, 8)
            == right_variants() && variants(Operation::Mul, flags).subrange(8, 9)
            == both_variants(),
        forall|m: int|
            0 <= m < variants(Operation::Mul, flags).len() ==> (#[trigger] pair_units(
                Operation::Mul,
                g,
                mg,
                lhs,
                rhs,
                flags,
            )[m]).generics == g,
{
    let v = variants(Operation::Mul, flags);
    assert(v.take(4) =~= base_variants());
    if flags.mutate_left {
        assert(v.subrange(4, 6) =~= left_variants());
    }
    if flags.mutate_right && !flags.mutate_left {
        assert(v.subrange(4, 6) =~= right_variants());
    }
    if flags.mutate_right && flags.mutate_left {
        assert(v.subrange(6, 8) =~= right_variants());
        assert(v.subrange(8, 9) =~= both_variants());
    }
}

} // verus!
