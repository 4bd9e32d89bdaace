//! Generator of operator implementations for vector types.
//!
//! A document is a list of declarations separated by `;`. Each declaration
//! names an operation (`Add`, `Sub` or `Mul`), a list of left operand types
//! and a list of right operand types, and may be preceded by annotations
//! that switch on the variants taking mutable references. For every pair of
//! a left and a right type the library produces the implementations that the
//! annotations ask for, in a fixed order, as records and as Rust text.
pub mod arg;
pub mod attributes;
pub mod declaration;
pub mod diagnostic;
pub mod emit;
pub mod generics;
pub mod impl_dot_prod;
pub mod impl_vector_add;
pub mod impl_vector_sub;
pub mod laws;
pub mod model;
pub mod outline;
pub mod render;
pub mod rust;
pub mod sequence;
pub mod text;
pub mod token;
pub mod traits;
