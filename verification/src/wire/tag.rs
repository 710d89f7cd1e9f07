use vstd::prelude::*;

use core::convert::Infallible;

use crate::decode_error::{DecodeError, lift_decode_error, varint_error_to_decode};
use crate::read::Read;
use crate::wire::{serialize_base128_varint, spec_parse_varint, spec_serialize_varint};

verus! {

/// The wire type carried in the low three bits of a tag.
#[derive(Copy, Clone, Debug, PartialEq, Eq, Hash, Structural)]
pub enum WireType {
    Varint,
    I64,
    LengthDelimited,
    Sgroup,
    Egroup,
    I32,
}

/// A decoded protobuf tag: field number and wire type.
#[derive(Copy, Clone, Debug, PartialEq, Eq, Hash, Structural)]
pub struct Tag {
    pub wire_type: WireType,
    pub field_number: u32,
}

/// The wire type with the given number, if there is one.
pub open spec fn spec_wire_type(value: u8) -> Option<WireType> {
    if value == 0 {
        Some(WireType::Varint)
    } else if value == 1 {
        Some(WireType::I64)
    } else if value == 2 {
        Some(WireType::LengthDelimited)
    } else if value == 3 {
        Some(WireType::Sgroup)
    } else if value == 4 {
        Some(WireType::Egroup)
    } else if value == 5 {
        Some(WireType::I32)
    } else {
        None
    }
}

/// The number of a wire type.
pub open spec fn spec_wire_type_number(w: WireType) -> u8 {
    match w {
        WireType::Varint => 0,
        WireType::I64 => 1,
        WireType::LengthDelimited => 2,
        WireType::Sgroup => 3,
        WireType::Egroup => 4,
        WireType::I32 => 5,
    }
}

/// The tag whose varint value is `value`: field number in the high bits,
/// wire type in the low three.
pub open spec fn spec_tag_of_value(value: u64) -> Result<Tag, DecodeError<Infallible>> {
    if value > u32::MAX {
        Err(DecodeError::InvalidVarint)
    } else {
        match spec_wire_type((value & 0b111) as u8) {
            Some(w) => Ok(Tag { field_number: (value >> 3u64) as u32, wire_type: w }),
            None => Err(DecodeError::InvalidWireType((value & 0b111) as u8)),
        }
    }
}

/// The tag at the front of `s` and the number of bytes it occupies.
pub open spec fn spec_read_tag(s: Seq<u8>) -> Result<(Tag, nat), DecodeError<Infallible>> {
    match spec_parse_varint(s) {
        Err(e) => Err(varint_error_to_decode(e)),
        Ok((v, n)) => match spec_tag_of_value(v) {
            Ok(t) => Ok((t, n as nat)),
            Err(e) => Err(e),
        },
    }
}

/// The varint value that encodes a tag.
pub open spec fn spec_tag_value(t: Tag) -> u64 {
    ((t.field_number as u64) << 3u64) | (spec_wire_type_number(t.wire_type) as u64)
}

/// Reading the serialized form of a tag, followed by any bytes, gives the tag
/// back, as long as its field number fits in the 29 bits a tag has for it.
pub proof fn lemma_tag_roundtrip(t: Tag, rest: Seq<u8>)
    requires
        t.field_number < 0x2000_0000,
    ensures
        spec_read_tag(spec_serialize_varint(spec_tag_value(t)) + rest) == Ok::<
            (Tag, nat),
            DecodeError<Infallible>,
        >((t, spec_serialize_varint(spec_tag_value(t)).len())),
        spec_tag_value(t) == 8 * t.field_number + spec_wire_type_number(t.wire_type),
{
    let v = spec_tag_value(t);
    crate::wire::lemma_varint_roundtrip(v, rest);
    let f = t.field_number as u64;
    let w = spec_wire_type_number(t.wire_type) as u64;
    assert(w <= 5);
    assert(v == (f << 3u64) | w);
    assert(((f << 3u64) | w) <= 0xffff_ffffu64 && ((f << 3u64) | w) & 0b111u64 == w && ((f << 3u64)
        | w) >> 3u64 == f && ((f << 3u64) | w) == f * 8 + w) by (bit_vector)
        requires
            f < 0x2000_0000u64,
            w <= 5u64,
    ;
    assert(spec_wire_type(w as u8) == Some(t.wire_type));
}

/// The wire type numbers of the protobuf format: the tag of field `f` with
/// wire type VARINT, I64, LEN, SGROUP, EGROUP or I32 has the value
/// `8 * f + 0`, `1`, `2`, `3`, `4` or `5`, and reading the varint of that
/// value, followed by any bytes, gives the tag back.
pub proof fn lemma_wire_type_numbers(f: u32, rest: Seq<u8>)
    requires
        f < 0x2000_0000,
    ensures
        spec_tag_value(Tag { field_number: f, wire_type: WireType::Varint }) == 8 * f + 0,
        spec_tag_value(Tag { field_number: f, wire_type: WireType::I64 }) == 8 * f + 1,
        spec_tag_value(Tag { field_number: f, wire_type: WireType::LengthDelimited }) == 8 * f + 2,
        spec_tag_value(Tag { field_number: f, wire_type: WireType::Sgroup }) == 8 * f + 3,
        spec_tag_value(Tag { field_number: f, wire_type: WireType::Egroup }) == 8 * f + 4,
        spec_tag_value(Tag { field_number: f, wire_type: WireType::I32 }) == 8 * f + 5,
        tag_reads_back(Tag { field_number: f, wire_type: WireType::Varint }, (8 * f + 0) as u64, rest),
        tag_reads_back(Tag { field_number: f, wire_type: WireType::I64 }, (8 * f + 1) as u64, rest),
        tag_reads_back(Tag { field_number: f, wire_type: WireType::LengthDelimited }, (8 * f + 2) as u64, rest),
        tag_reads_back(Tag { field_number: f, wire_type: WireType::Sgroup }, (8 * f + 3) as u64, rest),
        tag_reads_back(Tag { field_number: f, wire_type: WireType::Egroup }, (8 * f + 4) as u64, rest),
        tag_reads_back(Tag { field_number: f, wire_type: WireType::I32 }, (8 * f + 5) as u64, rest),
{
    lemma_tag_number(Tag { field_number: f, wire_type: WireType::Varint }, 0, rest);
    lemma_tag_number(Tag { field_number: f, wire_type: WireType::I64 }, 1, rest);
    lemma_tag_number(Tag { field_number: f, wire_type: WireType::LengthDelimited }, 2, rest);
    lemma_tag_number(Tag { field_number: f, wire_type: WireType::Sgroup }, 3, rest);
    lemma_tag_number(Tag { field_number: f, wire_type: WireType::Egroup }, 4, rest);
    lemma_tag_number(Tag { field_number: f, wire_type: WireType::I32 }, 5, rest);
}

/// Reading the varint `value`, followed by `rest`, gives the tag `t`.
pub open spec fn tag_reads_back(t: Tag, value: u64, rest: Seq<u8>) -> bool {
    spec_read_tag(spec_serialize_varint(value) + rest) == Ok::<(Tag, nat), DecodeError<Infallible>>(
        (t, spec_serialize_varint(value).len()),
    )
}

/// A tag whose wire type has number `k` has the value `8 * f + k`.
proof fn lemma_tag_number(t: Tag, k: u64, rest: Seq<u8>)
    requires
        t.field_number < 0x2000_0000,
        spec_wire_type_number(t.wire_type) == k,
    ensures
        spec_tag_value(t) == 8 * t.field_number + k,
        tag_reads_back(t, (8 * t.field_number + k) as u64, rest),
{
    lemma_tag_roundtrip(t, rest);
}

/// Reading a tag from bytes never fails with an error of a read source.
pub proof fn lemma_read_tag_no_read_error(s: Seq<u8>)
    ensures
        !(spec_read_tag(s) matches Err(DecodeError::Read(_))),
{
    crate::read::lemma_parse_varint_no_read_error(s, 0);
}

impl WireType {
    /// The wire type with the given number, if there is one.
    pub fn from_u8(value: u8) -> (r: Option<WireType>)
        ensures
            r == spec_wire_type(value),
    {
        match value {
            0 => Some(WireType::Varint),
            1 => Some(WireType::I64),
            2 => Some(WireType::LengthDelimited),
            3 => Some(WireType::Sgroup),
            4 => Some(WireType::Egroup),
            5 => Some(WireType::I32),
            _ => None,
        }
    }

    /// The number of the wire type.
    pub fn number(self) -> (r: u8)
        ensures
            r == spec_wire_type_number(self),
    {
        match self {
            WireType::Varint => 0,
            WireType::I64 => 1,
            WireType::LengthDelimited => 2,
            WireType::Sgroup => 3,
            WireType::Egroup => 4,
            WireType::I32 => 5,
        }
    }
}

impl Tag {
    /// Reads a tag from `r`.
    pub fn read_from<R: Read>(r: &mut R) -> (res: Result<Self, DecodeError<R::Error>>)
        ensures
            !(res matches Err(DecodeError::Read(_))) ==> match spec_read_tag(old(r).stream()) {
                Ok((t, n)) => res == Ok::<Tag, DecodeError<R::Error>>(t) && final(r).stream()
                    == old(r).stream().skip(n as int),
                Err(e) => res == Err::<Tag, DecodeError<R::Error>>(lift_decode_error(e)),
            },
            R::infallible() ==> !(res matches Err(DecodeError::Read(_))),
            R::atomic() && res == Err::<Tag, DecodeError<R::Error>>(DecodeError::UnexpectedEnd)
                ==> *final(r) == *old(r),
    {
        let value = match r.read_varint() {
            Ok(v) => v,
            Err(e) => return Err(DecodeError::from_varint_error(e)),
        };
        if value > u32::MAX as u64 {
            return Err(DecodeError::InvalidVarint);
        }
        let value = value as u32;
        let (field_number, wire_type) = (value >> 3, (value & 0b111) as u8);
        proof {
            let v = value as u64;
            assert((v & 0b111) as u8 == (value & 0b111) as u8 && (v >> 3u64) as u32 == value >> 3)
                by (bit_vector)
                requires
                    v == value as u64,
            ;
        }
        let wire_type = match WireType::from_u8(wire_type) {
            Some(w) => w,
            None => return Err(DecodeError::InvalidWireType(wire_type)),
        };
        Ok(Tag { field_number, wire_type })
    }

    /// The varint encoding of the tag.
    pub fn serialized(&self) -> (r: Vec<u8>)
        ensures
            r@ == spec_serialize_varint(spec_tag_value(*self)),
    {
        let value = ((self.field_number as u64) << 3) | (self.wire_type.number() as u64);
        serialize_base128_varint(value)
    }
}

} // verus!
