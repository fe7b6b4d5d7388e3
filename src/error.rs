use vstd::prelude::*;

verus! {

/// Every way in which a matrix operation can fail.
#[derive(Debug, Clone, Copy, PartialEq, Eq, Structural)]
pub enum MatrixError {
    /// A negative row or column count, or one whose product does not fit in memory.
    InvalidDimensions,
    /// Flat data whose length is not `rows * cols`.
    InvalidShape,
    /// Nested rows of unequal lengths.
    RaggedRows,
    /// An element index at or past its bound.
    IndexOutOfBounds,
    /// Operands whose shapes the operation cannot combine.
    ShapeMismatch,
    /// A square-only operation on a non-square matrix.
    NotSquare,
    /// A divisor matrix with a zero element.
    DivisionByZero,
    /// A size the operation does not handle.
    Unimplemented,
}

} // verus!
