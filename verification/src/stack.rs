//! A reduced tagged value for plain stack experiments: the four unsigned
//! integer kinds and their exact (non-wrapping) arithmetic.
//!
//! Unlike [`crate::types::MikuType`], whose operations return typed errors,
//! these operations are partial: a caller must present two entries of the
//! same kind, and arithmetic that would overflow or divide by zero is ruled
//! out by precondition rather than reported.

use vstd::prelude::*;
use crate::types::{
    is_str2, is_str3, lemma_dec_val_nonneg, parse_dec, spec_dec_val, spec_is_digits, spec_le_u16,
    spec_le_u32, spec_le_u64, spec_u16_le, spec_u32_le, spec_u64_le,
};

verus! {

/// An unsigned tagged value.
#[derive(Debug, Clone, Copy, PartialEq, Eq, Structural)]
pub enum StackEntry {
    U8(u8),
    U16(u16),
    U32(u32),
    U64(u64),
}

/// Whether two entries carry the same tag.
pub open spec fn spec_entries_match(a: StackEntry, b: StackEntry) -> bool {
    match (a, b) {
        (StackEntry::U8(_), StackEntry::U8(_)) => true,
        (StackEntry::U16(_), StackEntry::U16(_)) => true,
        (StackEntry::U32(_), StackEntry::U32(_)) => true,
        (StackEntry::U64(_), StackEntry::U64(_)) => true,
        _ => false,
    }
}

/// Whether the sum of two same-tagged entries fits the tag's width.
pub open spec fn spec_entry_add_fits(a: StackEntry, b: StackEntry) -> bool {
    match (a, b) {
        (StackEntry::U8(x), StackEntry::U8(y)) => x + y <= u8::MAX,
        (StackEntry::U16(x), StackEntry::U16(y)) => x + y <= u16::MAX,
        (StackEntry::U32(x), StackEntry::U32(y)) => x + y <= u32::MAX,
        (StackEntry::U64(x), StackEntry::U64(y)) => x + y <= u64::MAX,
        _ => false,
    }
}

/// The exact sum of two same-tagged entries.
pub open spec fn spec_entry_add(a: StackEntry, b: StackEntry) -> StackEntry {
    match (a, b) {
        (StackEntry::U8(x), StackEntry::U8(y)) => StackEntry::U8((x + y) as u8),
        (StackEntry::U16(x), StackEntry::U16(y)) => StackEntry::U16((x + y) as u16),
        (StackEntry::U32(x), StackEntry::U32(y)) => StackEntry::U32((x + y) as u32),
        (StackEntry::U64(x), StackEntry::U64(y)) => StackEntry::U64((x + y) as u64),
        _ => arbitrary(),
    }
}

/// Whether the left entry is at least the right one, so their difference
/// does not underflow.
pub open spec fn spec_entry_sub_fits(a: StackEntry, b: StackEntry) -> bool {
    match (a, b) {
        (StackEntry::U8(x), StackEntry::U8(y)) => x >= y,
        (StackEntry::U16(x), StackEntry::U16(y)) => x >= y,
        (StackEntry::U32(x), StackEntry::U32(y)) => x >= y,
        (StackEntry::U64(x), StackEntry::U64(y)) => x >= y,
        _ => false,
    }
}

/// The exact difference of two same-tagged entries.
pub open spec fn spec_entry_sub(a: StackEntry, b: StackEntry) -> StackEntry {
    match (a, b) {
        (StackEntry::U8(x), StackEntry::U8(y)) => StackEntry::U8((x - y) as u8),
        (StackEntry::U16(x), StackEntry::U16(y)) => StackEntry::U16((x - y) as u16),
        (StackEntry::U32(x), StackEntry::U32(y)) => StackEntry::U32((x - y) as u32),
        (StackEntry::U64(x), StackEntry::U64(y)) => StackEntry::U64((x - y) as u64),
        _ => arbitrary(),
    }
}

/// Whether the product of two same-tagged entries fits the tag's width.
pub open spec fn spec_entry_mul_fits(a: StackEntry, b: StackEntry) -> bool {
    match (a, b) {
        (StackEntry::U8(x), StackEntry::U8(y)) => x * y <= u8::MAX,
        (StackEntry::U16(x), StackEntry::U16(y)) => x * y <= u16::MAX,
        (StackEntry::U32(x), StackEntry::U32(y)) => x * y <= u32::MAX,
        (StackEntry::U64(x), StackEntry::U64(y)) => x * y <= u64::MAX,
        _ => false,
    }
}

/// The exact product of two same-tagged entries.
pub open spec fn spec_entry_mul(a: StackEntry, b: StackEntry) -> StackEntry {
    match (a, b) {
        (StackEntry::U8(x), StackEntry::U8(y)) => StackEntry::U8((x * y) as u8),
        (StackEntry::U16(x), StackEntry::U16(y)) => StackEntry::U16((x * y) as u16),
        (StackEntry::U32(x), StackEntry::U32(y)) => StackEntry::U32((x * y) as u32),
        (StackEntry::U64(x), StackEntry::U64(y)) => StackEntry::U64((x * y) as u64),
        _ => arbitrary(),
    }
}

/// Whether the right entry is the zero of its tag.
pub open spec fn spec_entry_is_zero(e: StackEntry) -> bool {
    match e {
        StackEntry::U8(x) => x == 0,
        StackEntry::U16(x) => x == 0,
        StackEntry::U32(x) => x == 0,
        StackEntry::U64(x) => x == 0,
    }
}

/// The quotient of two same-tagged entries, the divisor nonzero.
pub open spec fn spec_entry_div(a: StackEntry, b: StackEntry) -> StackEntry {
    match (a, b) {
        (StackEntry::U8(x), StackEntry::U8(y)) => StackEntry::U8((x / y) as u8),
        (StackEntry::U16(x), StackEntry::U16(y)) => StackEntry::U16((x / y) as u16),
        (StackEntry::U32(x), StackEntry::U32(y)) => StackEntry::U32((x / y) as u32),
        (StackEntry::U64(x), StackEntry::U64(y)) => StackEntry::U64((x / y) as u64),
        _ => arbitrary(),
    }
}

/// Whether two same-tagged entries hold the same value.
pub open spec fn spec_entry_eq(a: StackEntry, b: StackEntry) -> bool {
    match (a, b) {
        (StackEntry::U8(x), StackEntry::U8(y)) => x == y,
        (StackEntry::U16(x), StackEntry::U16(y)) => x == y,
        (StackEntry::U32(x), StackEntry::U32(y)) => x == y,
        (StackEntry::U64(x), StackEntry::U64(y)) => x == y,
        _ => arbitrary(),
    }
}

/// The byte encoding of an entry: a tag byte, then the value little-endian.
pub open spec fn spec_entry_to_bytes(e: StackEntry) -> Seq<u8> {
    match e {
        StackEntry::U8(x) => seq![0x00u8, x],
        StackEntry::U16(x) => seq![0x01u8] + spec_u16_le(x),
        StackEntry::U32(x) => seq![0x02u8] + spec_u32_le(x),
        StackEntry::U64(x) => seq![0x03u8] + spec_u64_le(x),
    }
}

/// Whether a byte sequence is a well-formed entry encoding: a known tag
/// byte followed by exactly the tag's payload width.
pub open spec fn spec_entry_bytes_wf(s: Seq<u8>) -> bool {
    s.len() >= 1 && ((s[0] == 0x00 && s.len() == 2) || (s[0] == 0x01 && s.len() == 3) || (s[0]
        == 0x02 && s.len() == 5) || (s[0] == 0x03 && s.len() == 9))
}

/// The entry encoded by a well-formed byte sequence.
pub open spec fn spec_entry_from_bytes(s: Seq<u8>) -> StackEntry {
    if s[0] == 0x00 {
        StackEntry::U8(s[1])
    } else if s[0] == 0x01 {
        StackEntry::U16(spec_le_u16(s[1], s[2]))
    } else if s[0] == 0x02 {
        StackEntry::U32(spec_le_u32(s[1], s[2], s[3], s[4]))
    } else {
        StackEntry::U64(spec_le_u64(s[1], s[2], s[3], s[4], s[5], s[6], s[7], s[8]))
    }
}

impl StackEntry {
    /// Adds two entries of the same kind; the sum must fit the kind.
    pub fn add(a: StackEntry, b: StackEntry) -> (r: StackEntry)
        requires
            spec_entry_add_fits(a, b),
        ensures
            r == spec_entry_add(a, b),
    {
        match (a, b) {
            (StackEntry::U8(x), StackEntry::U8(y)) => StackEntry::U8(x + y),
            (StackEntry::U16(x), StackEntry::U16(y)) => StackEntry::U16(x + y),
            (StackEntry::U32(x), StackEntry::U32(y)) => StackEntry::U32(x + y),
            (StackEntry::U64(x), StackEntry::U64(y)) => StackEntry::U64(x + y),
            _ => {
                proof {
                    assert(false);
                }
                StackEntry::U8(0)
            },
        }
    }

    /// Subtracts two entries of the same kind; the difference must not
    /// underflow.
    pub fn subtract(a: StackEntry, b: StackEntry) -> (r: StackEntry)
        requires
            spec_entry_sub_fits(a, b),
        ensures
            r == spec_entry_sub(a, b),
    {
        match (a, b) {
            (StackEntry::U8(x), StackEntry::U8(y)) => StackEntry::U8(x - y),
            (StackEntry::U16(x), StackEntry::U16(y)) => StackEntry::U16(x - y),
            (StackEntry::U32(x), StackEntry::U32(y)) => StackEntry::U32(x - y),
            (StackEntry::U64(x), StackEntry::U64(y)) => StackEntry::U64(x - y),
            _ => {
                proof {
                    assert(false);
                }
                StackEntry::U8(0)
            },
        }
    }

    /// Multiplies two entries of the same kind; the product must fit.
    pub fn multiply(a: StackEntry, b: StackEntry) -> (r: StackEntry)
        requires
            spec_entry_mul_fits(a, b),
        ensures
            r == spec_entry_mul(a, b),
    {
        match (a, b) {
            (StackEntry::U8(x), StackEntry::U8(y)) => StackEntry::U8(x * y),
            (StackEntry::U16(x), StackEntry::U16(y)) => StackEntry::U16(x * y),
            (StackEntry::U32(x), StackEntry::U32(y)) => StackEntry::U32(x * y),
            (StackEntry::U64(x), StackEntry::U64(y)) => StackEntry::U64(x * y),
            _ => {
                proof {
                    assert(false);
                }
                StackEntry::U8(0)
            },
        }
    }

    /// Divides two entries of the same kind; the divisor must be nonzero.
    pub fn divide(a: StackEntry, b: StackEntry) -> (r: StackEntry)
        requires
            spec_entries_match(a, b),
            !spec_entry_is_zero(b),
        ensures
            r == spec_entry_div(a, b),
    {
        match (a, b) {
            (StackEntry::U8(x), StackEntry::U8(y)) => StackEntry::U8(x / y),
            (StackEntry::U16(x), StackEntry::U16(y)) => StackEntry::U16(x / y),
            (StackEntry::U32(x), StackEntry::U32(y)) => StackEntry::U32(x / y),
            (StackEntry::U64(x), StackEntry::U64(y)) => StackEntry::U64(x / y),
            _ => {
                proof {
                    assert(false);
                }
                StackEntry::U8(0)
            },
        }
    }

    /// Compares two entries of the same kind for equality.
    pub fn eq(a: StackEntry, b: StackEntry) -> (r: bool)
        requires
            spec_entries_match(a, b),
        ensures
            r == spec_entry_eq(a, b),
    {
        match (a, b) {
            (StackEntry::U8(x), StackEntry::U8(y)) => x == y,
            (StackEntry::U16(x), StackEntry::U16(y)) => x == y,
            (StackEntry::U32(x), StackEntry::U32(y)) => x == y,
            (StackEntry::U64(x), StackEntry::U64(y)) => x == y,
            _ => {
                proof {
                    assert(false);
                }
                false
            },
        }
    }

    /// Encodes this entry as a tag byte followed by the little-endian value.
    pub fn to_bytes(&self) -> (r: Vec<u8>)
        ensures
            r@ == spec_entry_to_bytes(*self),
    {
        let mut bytes: Vec<u8> = Vec::new();
        match *self {
            StackEntry::U8(x) => {
                bytes.push(0x00);
                bytes.push(x);
            },
            StackEntry::U16(x) => {
                bytes.push(0x01);
                bytes.push((x % 256) as u8);
                bytes.push((x / 256) as u8);
            },
            StackEntry::U32(x) => {
                bytes.push(0x02);
                bytes.push((x % 256) as u8);
                bytes.push((x / 256 % 256) as u8);
                bytes.push((x / 65536 % 256) as u8);
                bytes.push((x / 16777216) as u8);
            },
            StackEntry::U64(x) => {
                bytes.push(0x03);
                bytes.push((x % 256) as u8);
                bytes.push((x / 256 % 256) as u8);
                bytes.push((x / 65536 % 256) as u8);
                bytes.push((x / 16777216 % 256) as u8);
                bytes.push((x / 4294967296 % 256) as u8);
                bytes.push((x / 1099511627776 % 256) as u8);
                bytes.push((x / 281474976710656 % 256) as u8);
                bytes.push((x / 72057594037927936) as u8);
            },
        }
        assert(bytes@ =~= spec_entry_to_bytes(*self));
        bytes
    }

    /// Decodes an entry from a well-formed tag-prefixed byte sequence.
    pub fn from_bytes(bytes: &[u8]) -> (r: StackEntry)
        requires
            spec_entry_bytes_wf(bytes@),
        ensures
            r == spec_entry_from_bytes(bytes@),
    {
        let t = bytes[0];
        if t == 0x00 {
            StackEntry::U8(bytes[1])
        } else if t == 0x01 {
            StackEntry::U16(bytes[1] as u16 + 256 * (bytes[2] as u16))
        } else if t == 0x02 {
            StackEntry::U32(
                bytes[1] as u32 + 256 * (bytes[2] as u32) + 65536 * (bytes[3] as u32) + 16777216
                    * (bytes[4] as u32),
            )
        } else {
            StackEntry::U64(
                bytes[1] as u64 + 256 * (bytes[2] as u64) + 65536 * (bytes[3] as u64) + 16777216
                    * (bytes[4] as u64) + 4294967296 * (bytes[5] as u64) + 1099511627776 * (
                bytes[6] as u64) + 281474976710656 * (bytes[7] as u64) + 72057594037927936 * (
                bytes[8] as u64),
            )
        }
    }
}

/// Whether a type name and a numeral form a well-formed textual entry: one
/// of the four unsigned type names and a numeral in that type's range.
pub open spec fn spec_entry_strs_wf(ty: Seq<char>, num: Seq<char>) -> bool {
    if ty == seq!['u', '8'] {
        spec_is_digits(num) && spec_dec_val(num) <= u8::MAX
    } else if ty == seq!['u', '1', '6'] {
        spec_is_digits(num) && spec_dec_val(num) <= u16::MAX
    } else if ty == seq!['u', '3', '2'] {
        spec_is_digits(num) && spec_dec_val(num) <= u32::MAX
    } else if ty == seq!['u', '6', '4'] {
        spec_is_digits(num) && spec_dec_val(num) <= u64::MAX
    } else {
        false
    }
}

/// The entry named by a well-formed type name and numeral.
pub open spec fn spec_entry_from_strs(ty: Seq<char>, num: Seq<char>) -> StackEntry {
    if ty == seq!['u', '8'] {
        StackEntry::U8(spec_dec_val(num) as u8)
    } else if ty == seq!['u', '1', '6'] {
        StackEntry::U16(spec_dec_val(num) as u16)
    } else if ty == seq!['u', '3', '2'] {
        StackEntry::U32(spec_dec_val(num) as u32)
    } else {
        StackEntry::U64(spec_dec_val(num) as u64)
    }
}

impl StackEntry {
    /// Reads an entry from a pair of strings: an unsigned type name (`u8`
    /// through `u64`) and a decimal numeral in that type's range.
    pub fn from_strs(strs: &[&str]) -> (r: StackEntry)
        requires
            strs@.len() == 2,
            spec_entry_strs_wf(strs@[0]@, strs@[1]@),
        ensures
            r == spec_entry_from_strs(strs@[0]@, strs@[1]@),
    {
        let ty = strs[0];
        let num = strs[1];
        proof {
            assert(num@.skip(0) =~= num@);
            lemma_dec_val_nonneg(num@);
        }
        if is_str2(ty, 'u', '8') {
            StackEntry::U8(parse_dec(num, 0) as u8)
        } else if is_str3(ty, 'u', '1', '6') {
            StackEntry::U16(parse_dec(num, 0) as u16)
        } else if is_str3(ty, 'u', '3', '2') {
            StackEntry::U32(parse_dec(num, 0) as u32)
        } else {
            StackEntry::U64(parse_dec(num, 0))
        }
    }
}

/// Every entry decodes back from its own encoding: the byte round trip is
/// the identity for every kind and value.
pub proof fn lemma_entry_bytes_round_trip(e: StackEntry)
    ensures
        spec_entry_bytes_wf(spec_entry_to_bytes(e)),
        spec_entry_from_bytes(spec_entry_to_bytes(e)) == e,
{
    match e {
        StackEntry::U8(x) => {},
        StackEntry::U16(x) => {
            crate::types::lemma_u16_le_round(x);
        },
        StackEntry::U32(x) => {
            crate::types::lemma_u32_le_round(x);
        },
        StackEntry::U64(x) => {
            crate::types::lemma_u64_le_round(x);
        },
    }
}

} // verus!
