//! The error taxonomy of the virtual machine.
//!
//! Every operation of the machine that can fail returns one of these typed
//! errors; the fetch-execute loop never catches or retries, so the first
//! error terminates a run and is handed back to the caller verbatim.

use vstd::prelude::*;
use crate::types::MikuType;

verus! {

/// The tag of a [`MikuType`] cell, without its payload.
///
/// Carried inside [`MikuError::UndefinedOperationBetweenTypesError`] to
/// describe which two tags an operation was attempted between.
#[derive(Debug, Clone, Copy, PartialEq, Eq, Structural)]
pub enum TypeTag {
    U8,
    U16,
    U32,
    U64,
    I8,
    I16,
    I32,
    I64,
    F32,
    F64,
    Null,
}

/// The arithmetic or comparison operation that was attempted between two
/// cells, named inside [`MikuError::UndefinedOperationBetweenTypesError`].
#[derive(Debug, Clone, Copy, PartialEq, Eq, Structural)]
pub enum CellOp {
    Add,
    Subtract,
    Multiply,
    Divide,
    Equals,
}

/// Everything that can go wrong while decoding bytecode or executing a
/// program.
#[derive(Debug, Clone, Copy, PartialEq, Eq, Structural)]
pub enum MikuError {
    /// A tag or opcode byte that no cell kind or instruction answers to.
    UnknownTypeError(u8),
    /// A byte sequence whose length does not match what its tag demands.
    BytesConversionError,
    /// An arithmetic or comparison operation between two cells whose tags
    /// differ; the operation and both tags are carried along.
    UndefinedOperationBetweenTypesError(CellOp, TypeTag, TypeTag),
    /// Division where the right operand is the zero of its numeric tag.
    DivisionByZeroError,
    /// A push onto a full stack segment.
    StackOverflow,
    /// A pop from an empty stack frame.
    StackUnderflow,
    /// A constant written to a data-section address that already holds one.
    UsedDataSpace,
    /// An address outside the segment bounds, or a null pointer dereference.
    SegmentationFault,
    /// A pointer dereference through a cell that does not carry the pointer
    /// tag; the offending cell is carried along.
    InvalidPointerType(MikuType),
    /// A jump, call or return target outside the program bounds.
    JumpOutOfBounds(usize),
    /// A duplication index outside the current stack frame.
    StackIndexOutOfBounds(usize),
    /// A register identifier outside the register file.
    RegisterOutOfBounds(usize),
    /// The configured instruction-count budget was exhausted before the
    /// program terminated.
    ExecutionLimitExceeded,
}

} // verus!
