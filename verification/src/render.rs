//! The text of the generated implementations.
use vstd::prelude::*;
use vstd::string::StringExecFns;

use crate::diagnostic::Operation;
use crate::emit::{ImplUnit, ImplUnitView, Ownership};
use crate::generics::{GenericParam, GenericParamView, Generics, GenericsView};
use crate::model::{lemma_models_push, models};

verus! {

/// The texts of the parameters of `params` that are region parameters
/// (`regions` on) or that are not (`regions` off), in order.
pub open spec fn picked(params: Seq<GenericParamView>, regions: bool) -> Seq<Seq<char>>
    decreases params.len(),
{
    if params.len() == 0 {
        Seq::empty()
    } else {
        let rest = picked(params.drop_last(), regions);
        if (params.last().scope is Some) == regions {
            rest.push(params.last().text)
        } else {
            rest
        }
    }
}

/// The texts of `params` in the order in which they are written out: the
/// region parameters first, then the others, each group in declared order.
pub open spec fn ordered_texts(params: Seq<GenericParamView>) -> Seq<Seq<char>> {
    picked(params, true) + picked(params, false)
}

/// The texts `parts` with `, ` between them.
pub open spec fn joined(parts: Seq<Seq<char>>) -> Seq<char>
    decreases parts.len(),
{
    if parts.len() == 0 {
        Seq::empty()
    } else if parts.len() == 1 {
        parts[0]
    } else {
        joined(parts.drop_last()) + ", "@ + parts.last()
    }
}

/// The text of a generic parameter list: nothing where it is empty, else
/// the parameters in angle brackets, region parameters first.
pub open spec fn generics_text(g: GenericsView) -> Seq<char> {
    if g.params.len() == 0 {
        Seq::empty()
    } else {
        "<"@ + joined(ordered_texts(g.params)) + ">"@
    }
}

/// The text of the symbol of an operation.
pub open spec fn symbol_text(op: Operation) -> Seq<char> {
    match op {
        Operation::Add => "+"@,
        Operation::Sub => "-"@,
        Operation::Mul => "*"@,
    }
}

/// What the generated code says when the two operands differ in length.
pub open spec fn mismatch_text(op: Operation) -> Seq<char> {
    match op {
        Operation::Add => "cannot add vectors of different lengths"@,
        Operation::Sub => "cannot subtract vectors of different lengths"@,
        Operation::Mul => "cannot multiply vectors of different lengths"@,
    }
}

/// The text of an operand type `ty` taken as `o`. A receiver that is
/// changed in place is borrowed for the region `'lhs`.
pub open spec fn operand_text(o: Ownership, ty: Seq<char>, in_place: bool) -> Seq<char> {
    match o {
        Ownership::Owned => ty,
        Ownership::Ref => "&"@ + ty,
        Ownership::MutRef => if in_place {
            "&'lhs mut "@ + ty
        } else {
            "&mut "@ + ty
        },
    }
}

/// The text of the receiver type.
pub open spec fn receiver_text(u: ImplUnitView) -> Seq<char> {
    operand_text(u.receiver, u.lhs, ImplUnit::in_place(u))
}

/// The text of the argument type.
pub open spec fn argument_text(u: ImplUnitView) -> Seq<char> {
    operand_text(u.argument, u.rhs, false)
}

/// The text of the result type: the receiver itself where it is changed
/// in place, the left type where a new vector is built, the element type
/// of the left type for a dot product.
pub open spec fn output_text(u: ImplUnitView) -> Seq<char> {
    if ImplUnit::in_place(u) {
        receiver_text(u)
    } else if u.operation.is_elementwise() {
        u.lhs
    } else {
        "<"@ + u.lhs + " as core::ops::Index<usize>>::Output"@
    }
}

/// The text of what the method computes once the lengths agree. A dot
/// product folds the products of the elements, in index order, into a
/// value that starts at the default of the result type; its text depends
/// on nothing but the operation. An elementwise operation combines the
/// elements pairwise, in index order, into the receiver where that is
/// mutable, else into a new vector.
pub open spec fn body_text(u: ImplUnitView) -> Seq<char> {
    if !u.operation.is_elementwise() {
        "        let mut acc = <Self::Output as core::default::Default>::default();\n        for i in 0..self.len() {\n            acc = acc + self[i].clone() * rhs[i].clone();\n        }\n        acc\n"@
    } else if ImplUnit::in_place(u) {
        "        for i in 0..self.len() {\n            self[i] = self[i].clone() "@ + symbol_text(
            u.operation,
        ) + " rhs[i].clone();\n        }\n        self\n"@
    } else {
        "        (0..self.len()).map(|i| self[i].clone() "@ + symbol_text(u.operation)
            + " rhs[i].clone()).collect()\n"@
    }
}

/// The text of one implementation.
pub open spec fn unit_text(u: ImplUnitView) -> Seq<char> {
    "impl"@ + generics_text(u.generics) + " core::ops::"@ + u.operation.name_text() + "<"@
        + argument_text(u) + "> for "@ + receiver_text(u) + " {\n    type Output = "@
        + output_text(u) + ";\n    fn "@ + u.operation.method_text() + "(self, rhs: "@
        + argument_text(u)
        + ") -> Self::Output {\n        if self.len() != rhs.len() {\n            panic!(\""@
        + mismatch_text(u.operation) + "\");\n        }\n"@ + body_text(u) + "    }\n}\n"@
}

/// The texts of `units`, one after the other.
pub open spec fn all_text(units: Seq<ImplUnitView>) -> Seq<char>
    decreases units.len(),
{
    if units.len() == 0 {
        Seq::empty()
    } else {
        all_text(units.drop_last()) + unit_text(units.last())
    }
}

/// What a dot product computes does not depend on how its operands are
/// taken, nor on their types or generic parameters: the switches change
/// the receiver and the argument only.
pub proof fn lemma_fold_is_fixed(u: ImplUnitView, v: ImplUnitView)
    requires
        u.operation == Operation::Mul,
        v.operation == Operation::Mul,
    ensures
        body_text(u) == body_text(v),
        mismatch_text(u.operation) == mismatch_text(v.operation),
{
}

/// Adds to `out` the texts of the region parameters of `params`, or of
/// the others.
fn pick(params: &Vec<GenericParam>, regions: bool, out: &mut Vec<String>)
    ensures
        models(final(out)@) == models(old(out)@) + picked(models(params@), regions),
{
    let ghost before = models(out@);
    let mut i: usize = 0;
    proof {
        assert(models(params@).take(0) =~= Seq::<GenericParamView>::empty());
        assert(models(out@) =~= before + picked(models(params@).take(0), regions));
    }
    while i < params.len()
        invariant
            i <= params.len(),
            models(out@) == before + picked(models(params@).take(i as int), regions),
        decreases params.len() - i,
    {
        let is_region = match &params[i].scope {
            Some(_) => true,
            None => false,
        };
        proof {
            let seen = models(params@).take(i as int);
            assert(models(params@).take(i + 1).drop_last() =~= seen);
            assert(models(params@).take(i + 1).last() == params@[i as int]@);
        }
        if is_region == regions {
            let text = params[i].text.clone();
            proof {
                lemma_models_push(out@, text);
                let seen = picked(models(params@).take(i as int), regions);
                assert((before + seen).push(text@) =~= before + seen.push(text@));
            }
            out.push(text);
        }
        i += 1;
    }
    proof {
        assert(models(params@).take(params.len() as int) =~= models(params@));
    }
}

/// The texts `parts` with `, ` between them.
fn join(parts: &Vec<String>) -> (s: String)
    ensures
        s@ == joined(models(parts@)),
{
    let mut s = String::new();
    let mut i: usize = 0;
    proof {
        assert(models(parts@).take(0) =~= Seq::<Seq<char>>::empty());
    }
    while i < parts.len()
        invariant
            i <= parts.len(),
            s@ == joined(models(parts@).take(i as int)),
        decreases parts.len() - i,
    {
        proof {
            let seen = models(parts@).take(i as int);
            assert(models(parts@).take(i + 1).drop_last() =~= seen);
            assert(models(parts@).take(i + 1).last() == parts@[i as int]@);
            if i == 0 {
                assert(Seq::<char>::empty() + parts@[0]@ =~= parts@[0]@);
                assert(models(parts@).take(1)[0] == parts@[0]@);
            }
        }
        if i > 0 {
            s.append(", ");
        }
        s.append(parts[i].as_str());
        i += 1;
    }
    proof {
        assert(models(parts@).take(parts.len() as int) =~= models(parts@));
    }
    s
}

impl Generics {
    /// The text of the list as it is written in generated code: region
    /// parameters first, then the others.
    pub fn render(&self) -> (s: String)
        ensures
            s@ == generics_text(self@),
    {
        if self.params.len() == 0 {
            return String::new();
        }
        let mut ordered: Vec<String> = Vec::new();
        proof {
            assert(models(ordered@) =~= Seq::<Seq<char>>::empty());
        }
        pick(&self.params, true, &mut ordered);
        pick(&self.params, false, &mut ordered);
        proof {
            assert(models(ordered@) =~= ordered_texts(self@.params));
        }
        let mut s = String::from_str("<");
        s.append(join(&ordered).as_str());
        s.append(">");
        s
    }
}

/// The text of the symbol of `op`.
fn symbol_of(op: Operation) -> (s: &'static str)
    ensures
        s@ == symbol_text(op),
{
    match op {
        Operation::Add => "+",
        Operation::Sub => "-",
        Operation::Mul => "*",
    }
}

/// What the generated code says when the operands of `op` differ in
/// length.
fn mismatch_of(op: Operation) -> (s: &'static str)
    ensures
        s@ == mismatch_text(op),
{
    match op {
        Operation::Add => "cannot add vectors of different lengths",
        Operation::Sub => "cannot subtract vectors of different lengths",
        Operation::Mul => "cannot multiply vectors of different lengths",
    }
}

/// The text of the operand type `ty` taken as `o`.
fn operand(o: Ownership, ty: &str, in_place: bool) -> (s: String)
    ensures
        s@ == operand_text(o, ty@, in_place),
{
    let prefix: &'static str = match o {
        Ownership::Owned => {
            return String::from_str(ty);
        },
        Ownership::Ref => "&",
        Ownership::MutRef => if in_place {
            "&'lhs mut "
        } else {
            "&mut "
        },
    };
    let mut s = String::from_str(prefix);
    s.append(ty);
    s
}

impl ImplUnit {
    /// The text of the result type.
    fn output(&self) -> (s: String)
        ensures
            s@ == output_text(self@),
    {
        if self.is_in_place() {
            operand(self.receiver, self.lhs.as_str(), true)
        } else {
            match self.operation {
                Operation::Mul => {
                    let mut s = String::from_str("<");
                    s.append(self.lhs.as_str());
                    s.append(" as core::ops::Index<usize>>::Output");
                    s
                },
                _ => self.lhs.clone(),
            }
        }
    }

    /// The text of what the method computes once the lengths agree.
    fn body(&self) -> (s: String)
        ensures
            s@ == body_text(self@),
    {
        match self.operation {
            Operation::Mul => String::from_str(
                "        let mut acc = <Self::Output as core::default::Default>::default();\n        for i in 0..self.len() {\n            acc = acc + self[i].clone() * rhs[i].clone();\n        }\n        acc\n",
            ),
            _ => if self.is_in_place() {
                let mut s = String::from_str(
                    "        for i in 0..self.len() {\n            self[i] = self[i].clone() ",
                );
                s.append(symbol_of(self.operation));
                s.append(" rhs[i].clone();\n        }\n        self\n");
                s
            } else {
                let mut s = String::from_str("        (0..self.len()).map(|i| self[i].clone() ");
                s.append(symbol_of(self.operation));
                s.append(" rhs[i].clone()).collect()\n");
                s
            },
        }
    }

    /// The text of the implementation.
    pub fn render(&self) -> (s: String)
        ensures
            s@ == unit_text(self@),
    {
        let receiver = operand(self.receiver, self.lhs.as_str(), self.is_in_place());
        let argument = operand(self.argument, self.rhs.as_str(), false);
        let mut s = String::from_str("impl");
        s.append(self.generics.render().as_str());
        s.append(" core::ops::");
        s.append(self.operation.name());
        s.append("<");
        s.append(argument.as_str());
        s.append("> for ");
        s.append(receiver.as_str());
        s.append(" {\n    type Output = ");
        s.append(self.output().as_str());
        s.append(";\n    fn ");
        s.append(self.operation.method());
        s.append("(self, rhs: ");
        s.append(argument.as_str());
        s.append(
            ") -> Self::Output {\n        if self.len() != rhs.len() {\n            panic!(\"",
        );
        s.append(mismatch_of(self.operation));
        s.append("\");\n        }\n");
        s.append(self.body().as_str());
        s.append("    }\n}\n");
        s
    }
}

/// The texts of `units`, one after the other.
pub fn render_all(units: &Vec<ImplUnit>) -> (s: String)
    ensures
        s@ == all_text(models(units@)),
{
    let mut s = String::new();
    let mut i: usize = 0;
    proof {
        assert(models(units@).take(0) =~= Seq::<ImplUnitView>::empty());
    }
    while i < units.len()
        invariant
            i <= units.len(),
            s@ == all_text(models(units@).take(i as int)),
        decreases units.len() - i,
    {
        proof {
            assert(models(units@).take(i + 1).drop_last() =~= models(units@).take(i as int));
            assert(models(units@).take(i + 1).last() == units@[i as int]@);
        }
        s.append(units[i].render().as_str());
        i += 1;
    }
    proof {
        assert(models(units@).take(units.len() as int) =~= models(units@));
    }
    s
}

} // verus!
