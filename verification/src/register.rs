//! The register file's single slot.
//!
//! A register pairs a small identifier with one cell of storage. The
//! machine keeps six of them, with no invariant beyond the engine's own
//! bookkeeping that slot `i` carries identifier `i`.

use vstd::prelude::*;
use crate::types::MikuType;

verus! {

/// One general-purpose register: an identifier and the cell it holds.
#[derive(Debug, Clone, Copy, PartialEq, Eq, Structural)]
pub struct Register {
    /// The register's identifier.
    pub ident: u8,
    /// The cell the register holds.
    pub value: MikuType,
}

impl Register {
    /// A register with the given identifier and initial value.
    pub fn new(ident: u8, value: MikuType) -> (r: Register)
        ensures
            r.ident == ident,
            r.value == value,
    {
        Register { ident, value }
    }

    /// The identifier of the register.
    pub fn ident(&self) -> (r: u8)
        ensures
            r == self.ident,
    {
        self.ident
    }

    /// The value that the register holds.
    pub fn value(&self) -> (r: MikuType)
        ensures
            r == self.value,
    {
        self.value
    }

    /// Replaces the value of the register.
    pub fn set(&mut self, value: MikuType)
        ensures
            final (self).ident == old(self).ident,
            final (self).value == value,
    {
        self.value = value;
    }
}

} // verus!
