use vstd::prelude::*;

verus! {

/// A tree that breaks an arity or weight rule at construction time.
#[derive(Clone, Copy, Debug, PartialEq, Eq, Structural)]
pub enum ValidationError {
    /// An operator was given a number of operands that it does not take.
    Arity,
    /// A product weight is NaN or infinite.
    NonFiniteWeight,
}

/// A wire value that is not the encoding of any filter or rank tree.
#[derive(Clone, Copy, Debug, PartialEq, Eq, Structural)]
pub enum DecodeError {
    /// The operator position holds something other than a known operator token.
    UnknownOperator,
    /// The operands do not have the count or the shape that the operator takes.
    ArityMismatch,
}

} // verus!
