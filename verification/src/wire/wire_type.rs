use vstd::prelude::*;

use core::convert::Infallible;

use crate::decode_error::{DecodeError, lift_decode_error, varint_error_to_decode};
use crate::read::{Read, ReadBuffer, ReadBytesError};
use crate::wire::numeric_field::NumericField;
use crate::wire::sealed::Sealed;
use crate::wire::spec_parse_varint;

verus! {

/// The value of four little-endian bytes.
pub open spec fn spec_le_u32(s: Seq<u8>) -> u32 {
    (s[0] as u32) | ((s[1] as u32) << 8u32) | ((s[2] as u32) << 16u32) | ((s[3] as u32) << 24u32)
}

/// The value of eight little-endian bytes.
pub open spec fn spec_le_u64(s: Seq<u8>) -> u64 {
    (s[0] as u64) | ((s[1] as u64) << 8u64) | ((s[2] as u64) << 16u64) | ((s[3] as u64) << 24u64)
        | ((s[4] as u64) << 32u64) | ((s[5] as u64) << 40u64) | ((s[6] as u64) << 48u64) | ((
    s[7] as u64) << 56u64)
}

/// Reading a fixed-width value of `n` bytes from the front of `s`.
pub open spec fn spec_read_fixed(s: Seq<u8>, n: nat) -> Result<Seq<u8>, DecodeError<Infallible>> {
    if n <= s.len() {
        Ok(s.take(n as int))
    } else {
        Err(DecodeError::UnexpectedEnd)
    }
}

/// A protobuf wire type that carries a number.
pub trait NumericWireType: Sealed + Sized {
    /// The representation of a value of this wire type.
    type Repr: Copy;

    /// The shortest and the longest encoding of a value, in bytes.
    spec fn spec_byte_len() -> (u8, u8);

    /// The shortest and the longest encoding of a value, in bytes.
    fn byte_len() -> (r: (u8, u8))
        ensures
            r == Self::spec_byte_len(),
            1 <= r.0 <= r.1,
    ;

    /// The value at the front of `s` and the number of bytes it occupies.
    spec fn spec_read_from(s: Seq<u8>) -> Result<(Self::Repr, nat), DecodeError<Infallible>>;

    /// The value carried by `s` if it has this wire type.
    spec fn spec_from_value(s: NumericField) -> Option<Self::Repr>;

    /// A successful read consumes at least one byte of what is there, and
    /// reading bytes never fails with an error of a read source.
    proof fn lemma_read_progress(s: Seq<u8>)
        ensures
            Self::spec_read_from(s) matches Ok((v, n)) ==> 1 <= n <= s.len()
                && Self::spec_byte_len().0 <= n <= Self::spec_byte_len().1,
            !(Self::spec_read_from(s) matches Err(DecodeError::Read(_))),
    ;

    /// Reads a value of this wire type from `r`.
    fn read_from<R: Read>(r: &mut R) -> (res: Result<Self::Repr, DecodeError<R::Error>>)
        ensures
            !(res matches Err(DecodeError::Read(_))) ==> match Self::spec_read_from(old(r).stream()) {
                Ok((v, n)) => res == Ok::<Self::Repr, DecodeError<R::Error>>(v)
                    && final(r).stream() == old(r).stream().skip(n as int),
                Err(e) => res == Err::<Self::Repr, DecodeError<R::Error>>(lift_decode_error(e)),
            },
            R::infallible() ==> !(res matches Err(DecodeError::Read(_))),
    ;

    /// Returns the value carried by `s` if it has this wire type.
    fn from_value(s: NumericField) -> (r: Option<Self::Repr>)
        ensures
            r == Self::spec_from_value(s),
    ;
}

/// The varint wire type.
pub struct Varint(Infallible);

/// The 64-bit fixed-width wire type.
pub struct I64(Infallible);

/// The 32-bit fixed-width wire type.
pub struct I32(Infallible);

/// Reads `n` bytes for a fixed-width value.
fn read_fixed_bytes<R: Read>(r: &mut R, n: u32) -> (res: Result<R::Buffer, DecodeError<R::Error>>)
    ensures
        !(res matches Err(DecodeError::Read(_))) ==> match spec_read_fixed(old(r).stream(), n as nat) {
            Ok(b) => res matches Ok(buf) && buf@ == b
                && final(r).stream() == old(r).stream().skip(n as int),
            Err(e) => res == Err::<R::Buffer, DecodeError<R::Error>>(lift_decode_error(e)),
        },
        R::infallible() ==> !(res matches Err(DecodeError::Read(_))),
{
    match r.read(n) {
        Ok(b) => Ok(b),
        Err(e) => Err(DecodeError::from_read_error(e)),
    }
}

impl NumericWireType for Varint {
    type Repr = u64;

    open spec fn spec_byte_len() -> (u8, u8) {
        (1, 10)
    }

    fn byte_len() -> (r: (u8, u8)) {
        (1, 10)
    }

    open spec fn spec_read_from(s: Seq<u8>) -> Result<(u64, nat), DecodeError<Infallible>> {
        match spec_parse_varint(s) {
            Ok((v, n)) => Ok((v, n as nat)),
            Err(e) => Err(varint_error_to_decode(e)),
        }
    }

    open spec fn spec_from_value(s: NumericField) -> Option<u64> {
        match s {
            NumericField::Varint(v) => Some(v),
            _ => None,
        }
    }

    proof fn lemma_read_progress(s: Seq<u8>) {
        crate::read::lemma_parse_varint_len(s);
        crate::read::lemma_parse_varint_no_read_error(s, 0);
    }

    fn read_from<R: Read>(r: &mut R) -> (res: Result<u64, DecodeError<R::Error>>) {
        match r.read_varint() {
            Ok(v) => Ok(v),
            Err(e) => Err(DecodeError::from_varint_error(e)),
        }
    }

    fn from_value(s: NumericField) -> (r: Option<u64>) {
        match s {
            NumericField::Varint(v) => Some(v),
            NumericField::I64(_) | NumericField::I32(_) => None,
        }
    }
}

impl NumericWireType for I64 {
    type Repr = u64;

    open spec fn spec_byte_len() -> (u8, u8) {
        (8, 8)
    }

    fn byte_len() -> (r: (u8, u8)) {
        (8, 8)
    }

    open spec fn spec_read_from(s: Seq<u8>) -> Result<(u64, nat), DecodeError<Infallible>> {
        match spec_read_fixed(s, 8) {
            Ok(b) => Ok((spec_le_u64(b), 8)),
            Err(e) => Err(e),
        }
    }

    open spec fn spec_from_value(s: NumericField) -> Option<u64> {
        match s {
            NumericField::I64(v) => Some(v),
            _ => None,
        }
    }

    proof fn lemma_read_progress(s: Seq<u8>) {
    }

    fn read_from<R: Read>(r: &mut R) -> (res: Result<u64, DecodeError<R::Error>>) {
        let buf = match read_fixed_bytes(r, 8) {
            Ok(b) => b,
            Err(e) => return Err(e),
        };
        let b = buf.as_bytes();
        if b.len() != 8 {
            return Err(DecodeError::UnexpectedEnd);
        }
        Ok((b[0] as u64) | ((b[1] as u64) << 8) | ((b[2] as u64) << 16) | ((b[3] as u64) << 24) | ((
        b[4] as u64) << 32) | ((b[5] as u64) << 40) | ((b[6] as u64) << 48) | ((b[7] as u64) << 56))
    }

    fn from_value(s: NumericField) -> (r: Option<u64>) {
        match s {
            NumericField::I64(i) => Some(i),
            NumericField::Varint(_) | NumericField::I32(_) => None,
        }
    }
}

impl NumericWireType for I32 {
    type Repr = u32;

    open spec fn spec_byte_len() -> (u8, u8) {
        (4, 4)
    }

    fn byte_len() -> (r: (u8, u8)) {
        (4, 4)
    }

    open spec fn spec_read_from(s: Seq<u8>) -> Result<(u32, nat), DecodeError<Infallible>> {
        match spec_read_fixed(s, 4) {
            Ok(b) => Ok((spec_le_u32(b), 4)),
            Err(e) => Err(e),
        }
    }

    open spec fn spec_from_value(s: NumericField) -> Option<u32> {
        match s {
            NumericField::I32(v) => Some(v),
            _ => None,
        }
    }

    proof fn lemma_read_progress(s: Seq<u8>) {
    }

    fn read_from<R: Read>(r: &mut R) -> (res: Result<u32, DecodeError<R::Error>>) {
        let buf = match read_fixed_bytes(r, 4) {
            Ok(b) => b,
            Err(e) => return Err(e),
        };
        let b = buf.as_bytes();
        if b.len() != 4 {
            return Err(DecodeError::UnexpectedEnd);
        }
        Ok((b[0] as u32) | ((b[1] as u32) << 8) | ((b[2] as u32) << 16) | ((b[3] as u32) << 24))
    }

    fn from_value(s: NumericField) -> (r: Option<u32>) {
        match s {
            NumericField::I32(i) => Some(i),
            NumericField::Varint(_) | NumericField::I64(_) => None,
        }
    }
}

/// A fixed64 value is read little-endian: the first eight bytes, the first
/// one least significant, and fewer than eight bytes are cut short.
pub proof fn lemma_i64_reads_little_endian(s: Seq<u8>)
    ensures
        s.len() >= 8 ==> (I64::spec_read_from(s) matches Ok((v, n)) && n == 8 && v as int == s[0]
            + s[1] * 0x100 + s[2] * 0x1_0000 + s[3] * 0x100_0000 + s[4] * 0x1_0000_0000 + s[5]
            * 0x100_0000_0000 + s[6] * 0x1_0000_0000_0000 + s[7] * 0x100_0000_0000_0000),
        s.len() < 8 ==> I64::spec_read_from(s) == Err::<(u64, nat), DecodeError<Infallible>>(
            DecodeError::UnexpectedEnd,
        ),
{
    if s.len() >= 8 {
        let t = s.take(8);
        let (b0, b1, b2, b3, b4, b5, b6, b7) = (t[0], t[1], t[2], t[3], t[4], t[5], t[6], t[7]);
        assert((b0 as u64) | ((b1 as u64) << 8u64) | ((b2 as u64) << 16u64) | ((b3 as u64) << 24u64)
            | ((b4 as u64) << 32u64) | ((b5 as u64) << 40u64) | ((b6 as u64) << 48u64) | ((b7 as u64)
            << 56u64) == (b0 as u64) + (b1 as u64) * 0x100u64 + (b2 as u64) * 0x1_0000u64 + (b3 as u64)
            * 0x100_0000u64 + (b4 as u64) * 0x1_0000_0000u64 + (b5 as u64) * 0x100_0000_0000u64 + (
        b6 as u64) * 0x1_0000_0000_0000u64 + (b7 as u64) * 0x100_0000_0000_0000u64) by (bit_vector);
    }
}

/// A fixed32 value is read little-endian: the first four bytes, the first
/// one least significant, and fewer than four bytes are cut short.
pub proof fn lemma_i32_reads_little_endian(s: Seq<u8>)
    ensures
        s.len() >= 4 ==> (I32::spec_read_from(s) matches Ok((v, n)) && n == 4 && v as int == s[0]
            + s[1] * 0x100 + s[2] * 0x1_0000 + s[3] * 0x100_0000),
        s.len() < 4 ==> I32::spec_read_from(s) == Err::<(u32, nat), DecodeError<Infallible>>(
            DecodeError::UnexpectedEnd,
        ),
{
    if s.len() >= 4 {
        let t = s.take(4);
        let (b0, b1, b2, b3) = (t[0], t[1], t[2], t[3]);
        assert((b0 as u32) | ((b1 as u32) << 8u32) | ((b2 as u32) << 16u32) | ((b3 as u32) << 24u32)
            == (b0 as u32) + (b1 as u32) * 0x100u32 + (b2 as u32) * 0x1_0000u32 + (b3 as u32)
            * 0x100_0000u32) by (bit_vector);
    }
}

/// Reading a fixed64 value gives back what writing it wrote, whatever
/// follows.
pub proof fn lemma_i64_roundtrip(v: u64, rest: Seq<u8>)
    ensures
        I64::spec_read_from(crate::wire::numeric_field::spec_numeric_bytes(NumericField::I64(v)) + rest)
            == Ok::<(u64, nat), DecodeError<Infallible>>((v, 8)),
{
    let s = crate::wire::numeric_field::spec_le_bytes_u64(v) + rest;
    let t = s.take(8);
    assert(t =~= crate::wire::numeric_field::spec_le_bytes_u64(v));
    assert(((v as u8) as u64) | ((((v >> 8u64) as u8) as u64) << 8u64) | ((((v >> 16u64) as u8) as u64)
        << 16u64) | ((((v >> 24u64) as u8) as u64) << 24u64) | ((((v >> 32u64) as u8) as u64)
        << 32u64) | ((((v >> 40u64) as u8) as u64) << 40u64) | ((((v >> 48u64) as u8) as u64)
        << 48u64) | ((((v >> 56u64) as u8) as u64) << 56u64) == v) by (bit_vector);
}

/// Reading a fixed32 value gives back what writing it wrote, whatever
/// follows.
pub proof fn lemma_i32_roundtrip(v: u32, rest: Seq<u8>)
    ensures
        I32::spec_read_from(crate::wire::numeric_field::spec_numeric_bytes(NumericField::I32(v)) + rest)
            == Ok::<(u32, nat), DecodeError<Infallible>>((v, 4)),
{
    let s = crate::wire::numeric_field::spec_le_bytes_u32(v) + rest;
    let t = s.take(4);
    assert(t =~= crate::wire::numeric_field::spec_le_bytes_u32(v));
    assert(((v as u8) as u32) | ((((v >> 8u32) as u8) as u32) << 8u32) | ((((v >> 16u32) as u8) as u32)
        << 16u32) | ((((v >> 24u32) as u8) as u32) << 24u32) == v) by (bit_vector);
}

} // verus!
