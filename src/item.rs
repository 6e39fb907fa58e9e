//! The items that words resolve to.
use vstd::prelude::*;

verus! {

/// A binary arithmetic word.
#[derive(Debug, Clone, Copy, PartialEq, Eq, Structural)]
pub enum ArithOp {
    Add,
    Sub,
    Mul,
    Div,
}

/// A word that rearranges the stack.
#[derive(Debug, Clone, Copy, PartialEq, Eq, Structural)]
pub enum StackOp {
    Dup,
    Drop,
    Swap,
    Over,
}

/// The delimiters of a definition, `:` and `;`.
#[derive(Debug, Clone, Copy, PartialEq, Eq, Structural)]
pub enum Marker {
    DefinitionStart,
    DefinitionEnd,
}

/// Something the evaluator carries out.
#[derive(Debug, Clone, Copy, PartialEq, Eq, Structural)]
pub enum Exec {
    Arith(ArithOp),
    Stack(StackOp),
    Literal(i32),
}

/// What a word resolves to, one element at a time.
#[derive(Debug, Clone, Copy, PartialEq, Eq, Structural)]
pub enum Item {
    Exec(Exec),
    Marker(Marker),
}

/// Whether `items` ends in the marker `m`.
pub open spec fn ends_with(items: Seq<Item>, m: Marker) -> bool {
    items.len() > 0 && items.last() == Item::Marker(m)
}

} // verus!
