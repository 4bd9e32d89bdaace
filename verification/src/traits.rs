//! The identifiers that name the operation of a declaration.
use vstd::prelude::*;

use crate::diagnostic::{Diagnostic, Operation, Span};
use crate::outline::{operation_at, parse_operation};
use crate::token::Input;

verus! {

/// The identifier `Add` in a declaration.
#[derive(Clone, Copy, Debug, PartialEq, Eq, Structural)]
pub struct Add {
    pub ident: Span,
}

/// The identifier `Mul` in a declaration.
#[derive(Clone, Copy, Debug, PartialEq, Eq, Structural)]
pub struct Mul {
    pub ident: Span,
}

/// The identifier `Sub` in a declaration.
#[derive(Clone, Copy, Debug, PartialEq, Eq, Structural)]
pub struct Sub {
    pub ident: Span,
}

impl Add {
    /// Reads the identifier `Add` at token `q`. Another identifier is an
    /// error at that identifier; anything else is an error at its place.
    pub fn parse(input: &Input, q: usize, hi: usize) -> (r: Result<Add, Diagnostic>)
        requires
            input.wf(),
            q <= hi <= input@.tokens.len(),
        ensures
            match r {
                Ok(t) => operation_at(input@, q as int, hi as int, Operation::Add) == Ok::<
                    Span,
                    Diagnostic,
                >(t.ident),
                Err(e) => operation_at(input@, q as int, hi as int, Operation::Add) == Err::<
                    Span,
                    Diagnostic,
                >(e),
            },
    {
        match parse_operation(input, q, hi, Operation::Add) {
            Ok(ident) => Ok(Add { ident }),
            Err(e) => Err(e),
        }
    }

    /// The identifier as it is written in generated code.
    pub fn to_tokens(&self) -> (s: &'static str)
        ensures
            s@ == Operation::Add.name_text(),
    {
        Operation::Add.name()
    }
}

impl Mul {
    /// Reads the identifier `Mul` at token `q`. Another identifier is an
    /// error at that identifier; anything else is an error at its place.
    pub fn parse(input: &Input, q: usize, hi: usize) -> (r: Result<Mul, Diagnostic>)
        requires
            input.wf(),
            q <= hi <= input@.tokens.len(),
        ensures
            match r {
                Ok(t) => operation_at(input@, q as int, hi as int, Operation::Mul) == Ok::<
                    Span,
                    Diagnostic,
                >(t.ident),
                Err(e) => operation_at(input@, q as int, hi as int, Operation::Mul) == Err::<
                    Span,
                    Diagnostic,
                >(e),
            },
    {
        match parse_operation(input, q, hi, Operation::Mul) {
            Ok(ident) => Ok(Mul { ident }),
            Err(e) => Err(e),
        }
    }

    /// The identifier as it is written in generated code.
    pub fn to_tokens(&self) -> (s: &'static str)
        ensures
            s@ == Operation::Mul.name_text(),
    {
        Operation::Mul.name()
    }
}

impl Sub {
    /// Reads the identifier `Sub` at token `q`. Another identifier is an
    /// error at that identifier; anything else is an error at its place.
    pub fn parse(input: &Input, q: usize, hi: usize) -> (r: Result<Sub, Diagnostic>)
        requires
            input.wf(),
            q <= hi <= input@.tokens.len(),
        ensures
            match r {
                Ok(t) => operation_at(input@, q as int, hi as int, Operation::Sub) == Ok::<
                    Span,
                    Diagnostic,
                >(t.ident),
                Err(e) => operation_at(input@, q as int, hi as int, Operation::Sub) == Err::<
                    Span,
                    Diagnostic,
                >(e),
            },
    {
        match parse_operation(input, q, hi, Operation::Sub) {
            Ok(ident) => Ok(Sub { ident }),
            Err(e) => Err(e),
        }
    }

    /// The identifier as it is written in generated code.
    pub fn to_tokens(&self) -> (s: &'static str)
        ensures
            s@ == Operation::Sub.name_text(),
    {
        Operation::Sub.name()
    }
}

} // verus!
