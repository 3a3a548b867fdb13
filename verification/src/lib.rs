//! A small stack/register bytecode virtual machine: a tagged value model,
//! a self-delimiting instruction encoding, and a fetch-decode-execute engine
//! over a segmented linear memory with call-frame support.
//!
//! The memory is a linear array of [`types::MikuType`] cells partitioned into
//! three contiguous segments fixed at construction: a stack, a write-once
//! data section for constants, and a heap. Six general-purpose registers
//! hold one cell each. Every operation that can fail returns a typed
//! [`error::MikuError`]; the first error terminates a run.

use vstd::prelude::*;

pub mod error;
pub mod float_bits;
pub mod inst;
pub mod miku;
pub mod register;
pub mod stack;
pub mod state;
pub mod tools;
pub mod types;

verus! {

/// Total number of memory cells of the default machine layout.
pub const MEMORY_SIZE: usize = 1024;

/// Lowest address of the default stack segment.
pub const STACK_START: usize = 0;

/// One past the highest address of the default stack segment
/// (the stack is 30% of the default memory).
pub const STACK_END: usize = MEMORY_SIZE / 100 * 30;

/// Lowest address of the default data segment; the segments are contiguous,
/// so the data section begins where the stack ends.
pub const DATA_START: usize = STACK_END;

/// One past the highest address of the default data segment
/// (the data section is 30% of the default memory).
pub const DATA_END: usize = DATA_START + MEMORY_SIZE / 100 * 30;

/// Lowest address of the default heap segment.
pub const HEAP_START: usize = DATA_END;

/// One past the highest address of the default heap segment.
pub const HEAP_END: usize = MEMORY_SIZE;

/// Number of general-purpose registers.
pub const REGISTER_COUNT: usize = 6;

} // verus!
