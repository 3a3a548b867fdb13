//! The instruction set.
//!
//! A closed set of opcodes with typed operands, dispatched by an exhaustive
//! match in the engine. Each instruction encodes as an opcode byte followed
//! by its operand bytes; address and index operands travel as eight
//! little-endian bytes. The self-delimiting length prefix that frames a
//! flat bytecode stream is added and removed one level up, by
//! [`crate::tools::encode_program`] and [`crate::tools::split_bytes_by_size`].

use vstd::prelude::*;
use crate::error::MikuError;
use crate::types::{
    push_u64_le, read_u64_le, spec_bytes_length, spec_from_bytes, spec_le_u64, spec_to_bytes,
    spec_u64_le, MikuType,
};

verus! {

/// The second operand of a [`Inst::SetReg`] instruction: either an immediate
/// cell or the identifier of a register to read the value from.
#[derive(Debug, Clone, Copy, PartialEq, Eq, Structural)]
pub enum SetOperand {
    /// An immediate cell value.
    Value(MikuType),
    /// A register identifier.
    Register(usize),
}

/// One machine instruction, operands inline.
///
/// Jump, call and duplication operands are absolute instruction indices or
/// frame offsets, validated at execution time; operand *bytes* are
/// validated at decode time.
#[derive(Debug, Clone, Copy, PartialEq, Eq, Structural)]
pub enum Inst {
    /// Push a cell onto the stack.
    Push(MikuType),
    /// Discard the top entry of the current frame.
    Pop,
    /// Write a constant into the data section at the given address, once.
    Def(MikuType, usize),
    /// Load a register: the identifier, the source operand, and whether the
    /// source is a pointer to dereference first.
    SetReg(usize, SetOperand, bool),
    /// Duplicate the entry `index` slots below the top of the frame.
    DupT(usize),
    /// Duplicate the entry `index` slots above the base of the frame.
    DupB(usize),
    /// Swap the two topmost frame entries.
    Swap,
    /// Pop two entries and push their sum.
    Plus,
    /// Pop two entries and push their difference (top minus second).
    Minus,
    /// Pop two entries and push their product.
    Mult,
    /// Pop two entries and push their quotient (top divided by second).
    Div,
    /// Pop two entries and push `U8(0)` if they are equal, else `U8(1)` —
    /// note the inverted boolean convention, on which `JmpZ` chains rely.
    Eq,
    /// Jump to an absolute instruction index.
    Jmp(usize),
    /// Pop one entry and jump if it is the zero of its tag.
    JmpZ(usize),
    /// Pop one entry and jump if it is not the zero of its tag.
    JmpNZ(usize),
    /// Call the function at an absolute instruction index.
    Call(usize),
    /// Return with no value.
    Ret,
    /// Return with the top of the current frame as the value.
    RetV,
}

/// The byte encoding of an instruction: the opcode byte followed by the
/// operand bytes, with no length prefix.
pub open spec fn spec_inst_encode(i: Inst) -> Seq<u8> {
    match i {
        Inst::Push(c) => seq![0x00u8] + spec_to_bytes(c),
        Inst::Pop => seq![0x01u8],
        Inst::Def(c, a) => seq![0x02u8] + spec_to_bytes(c) + spec_u64_le(a as u64),
        Inst::SetReg(rid, op2, deref) => seq![0x03u8] + spec_u64_le(rid as u64) + (match op2 {
            SetOperand::Value(c) => seq![0x00u8, if deref { 0x01u8 } else { 0x00u8 }]
                + spec_to_bytes(c),
            SetOperand::Register(r) => seq![0x01u8, if deref { 0x01u8 } else { 0x00u8 }]
                + spec_u64_le(r as u64),
        }),
        Inst::DupT(x) => seq![0x04u8] + spec_u64_le(x as u64),
        Inst::DupB(x) => seq![0x05u8] + spec_u64_le(x as u64),
        Inst::Swap => seq![0x06u8],
        Inst::Plus => seq![0x07u8],
        Inst::Minus => seq![0x08u8],
        Inst::Mult => seq![0x09u8],
        Inst::Div => seq![0x0Au8],
        Inst::Eq => seq![0x0Bu8],
        Inst::Jmp(t) => seq![0x0Cu8] + spec_u64_le(t as u64),
        Inst::JmpZ(t) => seq![0x0Du8] + spec_u64_le(t as u64),
        Inst::JmpNZ(t) => seq![0x0Eu8] + spec_u64_le(t as u64),
        Inst::Call(t) => seq![0x0Fu8] + spec_u64_le(t as u64),
        Inst::Ret => seq![0x10u8],
        Inst::RetV => seq![0x11u8],
    }
}

/// The index operand held in eight little-endian bytes starting at `o`,
/// or an error where the value does not fit a machine index.
pub open spec fn spec_usize_operand(s: Seq<u8>, o: int) -> Result<usize, MikuError> {
    if spec_le_u64(
        s[o],
        s[o + 1],
        s[o + 2],
        s[o + 3],
        s[o + 4],
        s[o + 5],
        s[o + 6],
        s[o + 7],
    ) <= usize::MAX as u64 {
        Ok(
            spec_le_u64(
                s[o],
                s[o + 1],
                s[o + 2],
                s[o + 3],
                s[o + 4],
                s[o + 5],
                s[o + 6],
                s[o + 7],
            ) as usize,
        )
    } else {
        Err(MikuError::BytesConversionError)
    }
}

/// The instruction encoded by an unframed byte sequence (opcode byte
/// first). An unknown opcode fails with [`MikuError::UnknownTypeError`];
/// operand bytes of the wrong count or shape fail with
/// [`MikuError::BytesConversionError`].
pub open spec fn spec_inst_decode(s: Seq<u8>) -> Result<Inst, MikuError> {
    if s.len() == 0 {
        Err(MikuError::BytesConversionError)
    } else if s[0] == 0x00 {
        match spec_from_bytes(s.subrange(1, s.len() as int)) {
            Ok(c) => Ok(Inst::Push(c)),
            Err(e) => Err(e),
        }
    } else if s[0] == 0x01 {
        if s.len() == 1 {
            Ok(Inst::Pop)
        } else {
            Err(MikuError::BytesConversionError)
        }
    } else if s[0] == 0x02 {
        if s.len() < 2 {
            Err(MikuError::BytesConversionError)
        } else {
            match spec_bytes_length(s[1]) {
                Err(e) => Err(e),
                Ok(w) => if s.len() == 1 + w + 8 {
                    match spec_from_bytes(s.subrange(1, 1 + w as int)) {
                        Err(e) => Err(e),
                        Ok(c) => match spec_usize_operand(s, 1 + w as int) {
                            Err(e) => Err(e),
                            Ok(a) => Ok(Inst::Def(c, a)),
                        },
                    }
                } else {
                    Err(MikuError::BytesConversionError)
                },
            }
        }
    } else if s[0] == 0x03 {
        if s.len() < 11 {
            Err(MikuError::BytesConversionError)
        } else if s[10] != 0x00 && s[10] != 0x01 {
            Err(MikuError::BytesConversionError)
        } else {
            match spec_usize_operand(s, 1) {
                Err(e) => Err(e),
                Ok(rid) => if s[9] == 0x00 {
                    match spec_from_bytes(s.subrange(11, s.len() as int)) {
                        Err(e) => Err(e),
                        Ok(c) => Ok(Inst::SetReg(rid, SetOperand::Value(c), s[10] == 0x01)),
                    }
                } else if s[9] == 0x01 {
                    if s.len() == 19 {
                        match spec_usize_operand(s, 11) {
                            Err(e) => Err(e),
                            Ok(r) => Ok(Inst::SetReg(rid, SetOperand::Register(r), s[10] == 0x01)),
                        }
                    } else {
                        Err(MikuError::BytesConversionError)
                    }
                } else {
                    Err(MikuError::BytesConversionError)
                },
            }
        }
    } else if s[0] == 0x04 || s[0] == 0x05 || s[0] == 0x0C || s[0] == 0x0D || s[0] == 0x0E || s[0]
        == 0x0F {
        if s.len() == 9 {
            match spec_usize_operand(s, 1) {
                Err(e) => Err(e),
                Ok(x) => Ok(
                    if s[0] == 0x04 {
                        Inst::DupT(x)
                    } else if s[0] == 0x05 {
                        Inst::DupB(x)
                    } else if s[0] == 0x0C {
                        Inst::Jmp(x)
                    } else if s[0] == 0x0D {
                        Inst::JmpZ(x)
                    } else if s[0] == 0x0E {
                        Inst::JmpNZ(x)
                    } else {
                        Inst::Call(x)
                    },
                ),
            }
        } else {
            Err(MikuError::BytesConversionError)
        }
    } else if s[0] == 0x06 || s[0] == 0x07 || s[0] == 0x08 || s[0] == 0x09 || s[0] == 0x0A || s[0]
        == 0x0B || s[0] == 0x10 || s[0] == 0x11 {
        if s.len() == 1 {
            Ok(
                if s[0] == 0x06 {
                    Inst::Swap
                } else if s[0] == 0x07 {
                    Inst::Plus
                } else if s[0] == 0x08 {
                    Inst::Minus
                } else if s[0] == 0x09 {
                    Inst::Mult
                } else if s[0] == 0x0A {
                    Inst::Div
                } else if s[0] == 0x0B {
                    Inst::Eq
                } else if s[0] == 0x10 {
                    Inst::Ret
                } else {
                    Inst::RetV
                },
            )
        } else {
            Err(MikuError::BytesConversionError)
        }
    } else {
        Err(MikuError::UnknownTypeError(s[0]))
    }
}

/// Reads the index operand held in eight little-endian bytes starting at
/// offset `o`.
fn read_usize_operand(bytes: &[u8], o: usize) -> (r: Result<usize, MikuError>)
    requires
        o + 8 <= bytes@.len(),
    ensures
        r == spec_usize_operand(bytes@, o as int),
{
    let v = read_u64_le(
        bytes[o],
        bytes[o + 1],
        bytes[o + 2],
        bytes[o + 3],
        bytes[o + 4],
        bytes[o + 5],
        bytes[o + 6],
        bytes[o + 7],
    );
    if v <= usize::MAX as u64 {
        Ok(v as usize)
    } else {
        Err(MikuError::BytesConversionError)
    }
}

impl Inst {
    /// Encodes this instruction as its opcode byte followed by its operand
    /// bytes; the stream-level length prefix is not included.
    pub fn encode(&self) -> (r: Vec<u8>)
        ensures
            r@ == spec_inst_encode(*self),
    {
        let mut bytes: Vec<u8> = Vec::new();
        match *self {
            Inst::Push(c) => {
                bytes.push(0x00);
                let mut payload = c.to_bytes();
                bytes.append(&mut payload);
            },
            Inst::Pop => {
                bytes.push(0x01);
            },
            Inst::Def(c, a) => {
                bytes.push(0x02);
                let mut payload = c.to_bytes();
                bytes.append(&mut payload);
                push_u64_le(&mut bytes, a as u64);
            },
            Inst::SetReg(rid, op2, deref) => {
                bytes.push(0x03);
                push_u64_le(&mut bytes, rid as u64);
                match op2 {
                    SetOperand::Value(c) => {
                        bytes.push(0x00);
                        bytes.push(if deref { 0x01 } else { 0x00 });
                        let mut payload = c.to_bytes();
                        bytes.append(&mut payload);
                    },
                    SetOperand::Register(r) => {
                        bytes.push(0x01);
                        bytes.push(if deref { 0x01 } else { 0x00 });
                        push_u64_le(&mut bytes, r as u64);
                    },
                }
            },
            Inst::DupT(x) => {
                bytes.push(0x04);
                push_u64_le(&mut bytes, x as u64);
            },
            Inst::DupB(x) => {
                bytes.push(0x05);
                push_u64_le(&mut bytes, x as u64);
            },
            Inst::Swap => {
                bytes.push(0x06);
            },
            Inst::Plus => {
                bytes.push(0x07);
            },
            Inst::Minus => {
                bytes.push(0x08);
            },
            Inst::Mult => {
                bytes.push(0x09);
            },
            Inst::Div => {
                bytes.push(0x0A);
            },
            Inst::Eq => {
                bytes.push(0x0B);
            },
            Inst::Jmp(t) => {
                bytes.push(0x0C);
                push_u64_le(&mut bytes, t as u64);
            },
            Inst::JmpZ(t) => {
                bytes.push(0x0D);
                push_u64_le(&mut bytes, t as u64);
            },
            Inst::JmpNZ(t) => {
                bytes.push(0x0E);
                push_u64_le(&mut bytes, t as u64);
            },
            Inst::Call(t) => {
                bytes.push(0x0F);
                push_u64_le(&mut bytes, t as u64);
            },
            Inst::Ret => {
                bytes.push(0x10);
            },
            Inst::RetV => {
                bytes.push(0x11);
            },
        }
        assert(bytes@ =~= spec_inst_encode(*self));
        bytes
    }

    /// Decodes an instruction from its unframed encoding: the opcode byte
    /// first, then exactly the opcode's operand bytes.
    pub fn decode(bytes: &[u8]) -> (r: Result<Inst, MikuError>)
        ensures
            r == spec_inst_decode(bytes@),
    {
        if bytes.len() == 0 {
            return Err(MikuError::BytesConversionError);
        }
        let t = bytes[0];
        if t == 0x00 {
            match MikuType::from_bytes(&bytes[1..bytes.len()]) {
                Ok(c) => Ok(Inst::Push(c)),
                Err(e) => Err(e),
            }
        } else if t == 0x01 {
            if bytes.len() == 1 {
                Ok(Inst::Pop)
            } else {
                Err(MikuError::BytesConversionError)
            }
        } else if t == 0x02 {
            if bytes.len() < 2 {
                return Err(MikuError::BytesConversionError);
            }
            let w = match MikuType::get_bytes_length(bytes[1]) {
                Ok(w) => w,
                Err(e) => {
                    return Err(e);
                },
            };
            if bytes.len() == 1 + w + 8 {
                let c = match MikuType::from_bytes(&bytes[1..1 + w]) {
                    Ok(c) => c,
                    Err(e) => {
                        return Err(e);
                    },
                };
                match read_usize_operand(bytes, 1 + w) {
                    Ok(a) => Ok(Inst::Def(c, a)),
                    Err(e) => Err(e),
                }
            } else {
                Err(MikuError::BytesConversionError)
            }
        } else if t == 0x03 {
            if bytes.len() < 11 {
                return Err(MikuError::BytesConversionError);
            }
            if bytes[10] != 0x00 && bytes[10] != 0x01 {
                return Err(MikuError::BytesConversionError);
            }
            let deref = bytes[10] == 0x01;
            let rid = match read_usize_operand(bytes, 1) {
                Ok(rid) => rid,
                Err(e) => {
                    return Err(e);
                },
            };
            if bytes[9] == 0x00 {
                match MikuType::from_bytes(&bytes[11..bytes.len()]) {
                    Ok(c) => Ok(Inst::SetReg(rid, SetOperand::Value(c), deref)),
                    Err(e) => Err(e),
                }
            } else if bytes[9] == 0x01 {
                if bytes.len() == 19 {
                    match read_usize_operand(bytes, 11) {
                        Ok(r) => Ok(Inst::SetReg(rid, SetOperand::Register(r), deref)),
                        Err(e) => Err(e),
                    }
                } else {
                    Err(MikuError::BytesConversionError)
                }
            } else {
                Err(MikuError::BytesConversionError)
            }
        } else if t == 0x04 || t == 0x05 || t == 0x0C || t == 0x0D || t == 0x0E || t == 0x0F {
            if bytes.len() == 9 {
                match read_usize_operand(bytes, 1) {
                    Ok(x) => Ok(
                        if t == 0x04 {
                            Inst::DupT(x)
                        } else if t == 0x05 {
                            Inst::DupB(x)
                        } else if t == 0x0C {
                            Inst::Jmp(x)
                        } else if t == 0x0D {
                            Inst::JmpZ(x)
                        } else if t == 0x0E {
                            Inst::JmpNZ(x)
                        } else {
                            Inst::Call(x)
                        },
                    ),
                    Err(e) => Err(e),
                }
            } else {
                Err(MikuError::BytesConversionError)
            }
        } else if t == 0x06 || t == 0x07 || t == 0x08 || t == 0x09 || t == 0x0A || t == 0x0B || t
            == 0x10 || t == 0x11 {
            if bytes.len() == 1 {
                Ok(
                    if t == 0x06 {
                        Inst::Swap
                    } else if t == 0x07 {
                        Inst::Plus
                    } else if t == 0x08 {
                        Inst::Minus
                    } else if t == 0x09 {
                        Inst::Mult
                    } else if t == 0x0A {
                        Inst::Div
                    } else if t == 0x0B {
                        Inst::Eq
                    } else if t == 0x10 {
                        Inst::Ret
                    } else {
                        Inst::RetV
                    },
                )
            } else {
                Err(MikuError::BytesConversionError)
            }
        } else {
            Err(MikuError::UnknownTypeError(t))
        }
    }
}

/// Eight little-endian bytes embedded at offset `o` of a longer sequence
/// read back as the index value they encode.
proof fn lemma_usize_operand_round(s: Seq<u8>, o: int, x: usize)
    requires
        0 <= o,
        o + 8 <= s.len(),
        s.subrange(o, o + 8) =~= spec_u64_le(x as u64),
    ensures
        spec_usize_operand(s, o) == Ok::<usize, MikuError>(x),
{
    crate::types::lemma_u64_le_round(x as u64);
    assert(s.subrange(o, o + 8)[0] == s[o]);
    assert(s.subrange(o, o + 8)[1] == s[o + 1]);
    assert(s.subrange(o, o + 8)[2] == s[o + 2]);
    assert(s.subrange(o, o + 8)[3] == s[o + 3]);
    assert(s.subrange(o, o + 8)[4] == s[o + 4]);
    assert(s.subrange(o, o + 8)[5] == s[o + 5]);
    assert(s.subrange(o, o + 8)[6] == s[o + 6]);
    assert(s.subrange(o, o + 8)[7] == s[o + 7]);
}

/// Round trip of a `Push` encoding.
proof fn lemma_round_push(c: MikuType)
    ensures
        spec_inst_decode(spec_inst_encode(Inst::Push(c))) == Ok::<Inst, MikuError>(Inst::Push(c)),
{
    let s = spec_inst_encode(Inst::Push(c));
    assert(s.subrange(1, s.len() as int) =~= spec_to_bytes(c));
    crate::types::lemma_cell_bytes_round_trip(c);
}

/// Round trip of a `Def` encoding.
proof fn lemma_round_def(c: MikuType, a: usize)
    ensures
        spec_inst_decode(spec_inst_encode(Inst::Def(c, a))) == Ok::<Inst, MikuError>(
            Inst::Def(c, a),
        ),
{
    let s = spec_inst_encode(Inst::Def(c, a));
    let cb = spec_to_bytes(c);
    let w = cb.len() as int;
    crate::types::lemma_to_bytes_length(c);
    assert(s[1] == cb[0]);
    assert(s.subrange(1, 1 + w) =~= cb);
    crate::types::lemma_cell_bytes_round_trip(c);
    assert(s.subrange(1 + w, 1 + w + 8) =~= spec_u64_le(a as u64));
    lemma_usize_operand_round(s, 1 + w, a);
}

/// Round trip of a `SetReg` encoding.
#[verifier::rlimit(100)]
proof fn lemma_round_setreg(rid: usize, op2: SetOperand, deref: bool)
    ensures
        spec_inst_decode(spec_inst_encode(Inst::SetReg(rid, op2, deref))) == Ok::<Inst, MikuError>(
            Inst::SetReg(rid, op2, deref),
        ),
{
    let s = spec_inst_encode(Inst::SetReg(rid, op2, deref));
    assert(s.subrange(1, 9) =~= spec_u64_le(rid as u64));
    lemma_usize_operand_round(s, 1, rid);
    match op2 {
        SetOperand::Value(c) => {
            assert(s[9] == 0x00);
            assert(s[10] == if deref {
                0x01u8
            } else {
                0x00u8
            });
            assert(s.subrange(11, s.len() as int) =~= spec_to_bytes(c));
            crate::types::lemma_cell_bytes_round_trip(c);
        },
        SetOperand::Register(r) => {
            assert(s[9] == 0x01);
            assert(s[10] == if deref {
                0x01u8
            } else {
                0x00u8
            });
            assert(s.subrange(11, 19) =~= spec_u64_le(r as u64));
            lemma_usize_operand_round(s, 11, r);
        },
    }
}

/// Round trip of the six encodings whose one operand is an index.
proof fn lemma_round_indexed(i: Inst, x: usize)
    requires
        i == Inst::DupT(x) || i == Inst::DupB(x) || i == Inst::Jmp(x) || i == Inst::JmpZ(x) || i
            == Inst::JmpNZ(x) || i == Inst::Call(x),
    ensures
        spec_inst_decode(spec_inst_encode(i)) == Ok::<Inst, MikuError>(i),
{
    let s = spec_inst_encode(i);
    assert(s.subrange(1, 9) =~= spec_u64_le(x as u64));
    lemma_usize_operand_round(s, 1, x);
}

/// Every instruction decodes back from its own encoding: the byte round
/// trip is the identity for every opcode and operand.
pub proof fn lemma_inst_bytes_round_trip(i: Inst)
    ensures
        spec_inst_decode(spec_inst_encode(i)) == Ok::<Inst, MikuError>(i),
{
    match i {
        Inst::Push(c) => lemma_round_push(c),
        Inst::Pop => {},
        Inst::Def(c, a) => lemma_round_def(c, a),
        Inst::SetReg(rid, op2, deref) => lemma_round_setreg(rid, op2, deref),
        Inst::DupT(x) => lemma_round_indexed(i, x),
        Inst::DupB(x) => lemma_round_indexed(i, x),
        Inst::Swap => {},
        Inst::Plus => {},
        Inst::Minus => {},
        Inst::Mult => {},
        Inst::Div => {},
        Inst::Eq => {},
        Inst::Jmp(t) => lemma_round_indexed(i, t),
        Inst::JmpZ(t) => lemma_round_indexed(i, t),
        Inst::JmpNZ(t) => lemma_round_indexed(i, t),
        Inst::Call(t) => lemma_round_indexed(i, t),
        Inst::Ret => {},
        Inst::RetV => {},
    }
}

} // verus!
