use vstd::prelude::*;

use crate::wire::{serialize_base128_varint, spec_serialize_varint};

verus! {

/// The value of a numeric field, by wire type.
#[derive(Copy, Clone, Debug, PartialEq, Eq, Hash, Structural)]
pub enum NumericField {
    Varint(u64),
    I64(u64),
    I32(u32),
}

/// The little-endian bytes of a 32-bit value.
pub open spec fn spec_le_bytes_u32(v: u32) -> Seq<u8> {
    seq![v as u8, (v >> 8u32) as u8, (v >> 16u32) as u8, (v >> 24u32) as u8]
}

/// The little-endian bytes of a 64-bit value.
pub open spec fn spec_le_bytes_u64(v: u64) -> Seq<u8> {
    seq![
        v as u8,
        (v >> 8u64) as u8,
        (v >> 16u64) as u8,
        (v >> 24u64) as u8,
        (v >> 32u64) as u8,
        (v >> 40u64) as u8,
        (v >> 48u64) as u8,
        (v >> 56u64) as u8,
    ]
}

/// The wire encoding of a numeric field's value (without its tag).
pub open spec fn spec_numeric_bytes(f: NumericField) -> Seq<u8> {
    match f {
        NumericField::Varint(v) => spec_serialize_varint(v),
        NumericField::I64(v) => spec_le_bytes_u64(v),
        NumericField::I32(v) => spec_le_bytes_u32(v),
    }
}

/// Little-endian bytes of a 32-bit value.
pub fn le_bytes_u32(v: u32) -> (r: Vec<u8>)
    ensures
        r@ == spec_le_bytes_u32(v),
{
    let mut r: Vec<u8> = Vec::new();
    r.push(v as u8);
    r.push((v >> 8) as u8);
    r.push((v >> 16) as u8);
    r.push((v >> 24) as u8);
    assert(r@ =~= spec_le_bytes_u32(v));
    r
}

/// Little-endian bytes of a 64-bit value.
pub fn le_bytes_u64(v: u64) -> (r: Vec<u8>)
    ensures
        r@ == spec_le_bytes_u64(v),
{
    let mut r: Vec<u8> = Vec::new();
    let mut i: u64 = 0;
    while i < 8
        invariant
            i <= 8,
            r@.len() == i,
            forall|j: int| 0 <= j < i ==> r@[j] == spec_le_bytes_u64(v)[j],
        decreases 8 - i,
    {
        r.push((v >> (i * 8)) as u8);
        proof {
            let s = spec_le_bytes_u64(v);
            assert(r@[i as int] == s[i as int]) by {
                if i == 0 {
                    assert(v >> 0u64 == v) by (bit_vector);
                }
            }
        }
        i = i + 1;
    }
    assert(r@ =~= spec_le_bytes_u64(v));
    r
}

impl NumericField {
    /// The wire encoding of the value (without its tag).
    pub fn serialize(&self) -> (r: Vec<u8>)
        ensures
            r@ == spec_numeric_bytes(*self),
    {
        match self {
            NumericField::Varint(v) => serialize_base128_varint(*v),
            NumericField::I64(v) => le_bytes_u64(*v),
            NumericField::I32(v) => le_bytes_u32(*v),
        }
    }
}

} // verus!
