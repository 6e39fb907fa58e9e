//! A small interpreter for a Forth-like stack language: whitespace-separated
//! words over a stack of `i32`, with built-in arithmetic and stack words and
//! user definitions written `: name body ;`.
use vstd::prelude::*;

pub mod interpreter;
pub mod item;
pub mod laws;
pub mod machine;
pub mod parser;
pub mod text;
pub mod vocab;

pub use interpreter::Forth;

verus! {

/// The failures that evaluating a line can end in.
#[derive(Debug, Clone, Copy, PartialEq, Eq, Structural)]
pub enum Error {
    DivisionByZero,
    StackUnderflow,
    UnknownWord,
    InvalidWord,
}

} // verus!
