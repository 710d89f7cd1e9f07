//! How protobuf scalar types are decoded from their wire representation.
use vstd::prelude::*;

use core::marker::PhantomData;

use crate::scan::error::StopScan;
use crate::wire::wire_type::{I32, I64, NumericWireType, Varint as WireVarint};

verus! {

/// A varint-encoded scalar of Rust type `T`.
pub struct Varint<T>(PhantomData<T>);

/// A fixed-width scalar of Rust type `T`.
pub struct Fixed<T>(PhantomData<T>);

/// A zigzag-encoded signed integer of Rust type `T` (protobuf `sint32` and
/// `sint64`).
pub struct ZigZag<T>(PhantomData<T>);

/// A protobuf scalar type: the wire type it is carried in and how its value
/// is decoded from that.
pub trait Encoding {
    /// The wire type that carries the value.
    type Wire: NumericWireType;
    /// The Rust representation of the value.
    type Repr: Copy;

    /// The value represented by the wire value `w`, if it is in range.
    spec fn spec_decode(w: <Self::Wire as NumericWireType>::Repr) -> Option<Self::Repr>;

    /// The value a field holds when it is absent.
    spec fn spec_default() -> Self::Repr;

    /// The wire value protobuf encodes `v` as.
    spec fn spec_encode(v: Self::Repr) -> <Self::Wire as NumericWireType>::Repr;

    /// Decoding gives back every value from its protobuf encoding.
    proof fn lemma_decode_encode(v: Self::Repr)
        ensures
            Self::spec_decode(Self::spec_encode(v)) == Some(v),
    ;

    /// Decodes the wire value, failing if it is out of range for the type.
    fn decode(w: <Self::Wire as NumericWireType>::Repr) -> (r: Result<Self::Repr, StopScan>)
        ensures
            match Self::spec_decode(w) {
                Some(v) => r == Ok::<Self::Repr, StopScan>(v),
                None => r is Err,
            },
    ;

    /// The value a field holds when it is absent (zero, or `false`).
    fn default_repr() -> (r: Self::Repr)
        ensures
            r == Self::spec_default(),
    ;

    /// Whether two values are the same.
    fn same_value(a: Self::Repr, b: Self::Repr) -> (r: bool)
        ensures
            r == (a == b),
    ;
}

/// The signed integer a zigzag-encoded value stands for: even values are the
/// non-negative numbers, odd values the negative ones.
pub open spec fn spec_zigzag(u: nat) -> int {
    if u % 2 == 0 {
        (u / 2) as int
    } else {
        -((u + 1) / 2)
    }
}

/// The zigzag encoding of a 32-bit signed integer.
pub open spec fn spec_zigzag_encode_i32(v: i32) -> u32 {
    ((v << 1u32) ^ (v >> 31u32)) as u32
}

/// The zigzag encoding of a 64-bit signed integer.
pub open spec fn spec_zigzag_encode_i64(v: i64) -> u64 {
    ((v << 1u64) ^ (v >> 63u64)) as u64
}

/// Decodes a zigzag-encoded 32-bit value; the result's bits are those of the
/// signed value.
pub fn zigzag_decode_u32(u: u32) -> (r: u32)
    ensures
        r as i32 == spec_zigzag(u as nat),
{
    let sign = u & 1;
    let xor = if sign == 0 { 0u32 } else { u32::MAX };
    let x = u ^ xor;
    let y = (x & !1u32) | sign;
    let r = (y >> 1) | (y << 31);
    proof {
        assert(r == (if u & 1 == 0 { u >> 1 } else { !(u >> 1) })) by (bit_vector)
            requires
                sign == u & 1,
                xor == (if sign == 0 { 0u32 } else { 0xffff_ffffu32 }),
                x == u ^ xor,
                y == (x & !1u32) | sign,
                r == (y >> 1) | (y << 31),
        ;
        assert((u & 1 == 0 ==> u >> 1 == u / 2) && (u & 1 != 0 ==> u >> 1 == (u - 1) / 2) && (u
            & 1 == 0 <==> u % 2 == 0) && (u >> 1) < 0x8000_0000) by (bit_vector);
        let h = u >> 1;
        assert((!h) as i32 == -1 - (h as i32)) by (bit_vector)
            requires
                h < 0x8000_0000,
        ;
    }
    r
}

/// Decodes a zigzag-encoded 64-bit value; the result's bits are those of the
/// signed value.
pub fn zigzag_decode_u64(u: u64) -> (r: u64)
    ensures
        r as i64 == spec_zigzag(u as nat),
{
    let sign = u & 1;
    let xor = if sign == 0 { 0u64 } else { u64::MAX };
    let x = u ^ xor;
    let y = (x & !1u64) | sign;
    let r = (y >> 1) | (y << 63);
    proof {
        assert(r == (if u & 1 == 0 { u >> 1 } else { !(u >> 1) })) by (bit_vector)
            requires
                sign == u & 1,
                xor == (if sign == 0 { 0u64 } else { 0xffff_ffff_ffff_ffffu64 }),
                x == u ^ xor,
                y == (x & !1u64) | sign,
                r == (y >> 1) | (y << 63),
        ;
        assert((u & 1 == 0 ==> u >> 1 == u / 2) && (u & 1 != 0 ==> u >> 1 == (u - 1) / 2) && (u
            & 1 == 0 <==> u % 2 == 0) && (u >> 1) < 0x8000_0000_0000_0000) by (bit_vector);
        let h = u >> 1;
        assert((!h) as i64 == -1 - (h as i64)) by (bit_vector)
            requires
                h < 0x8000_0000_0000_0000,
        ;
    }
    r
}

/// Zigzag decoding undoes zigzag encoding for every 32-bit signed integer.
pub proof fn lemma_zigzag_roundtrip_i32(v: i32)
    ensures
        spec_zigzag(spec_zigzag_encode_i32(v) as nat) == v,
{
    let u = spec_zigzag_encode_i32(v);
    assert(u & 1 == 0 <==> u % 2 == 0) by (bit_vector);
    assert(v >= 0 ==> u & 1 == 0 && u >> 1 == v) by (bit_vector)
        requires
            u == ((v << 1u32) ^ (v >> 31u32)) as u32,
    ;
    assert(v < 0 ==> u & 1 != 0 && (!(u >> 1)) as i32 == v) by (bit_vector)
        requires
            u == ((v << 1u32) ^ (v >> 31u32)) as u32,
    ;
    assert((u & 1 == 0 ==> u >> 1 == u / 2) && (u & 1 != 0 ==> u >> 1 == (u - 1) / 2) && (u >> 1)
        < 0x8000_0000) by (bit_vector);
    let h = u >> 1;
    assert((!h) as i32 == -1 - (h as i32)) by (bit_vector)
        requires
            h < 0x8000_0000,
    ;
}

/// Zigzag decoding undoes zigzag encoding for every 64-bit signed integer.
pub proof fn lemma_zigzag_roundtrip_i64(v: i64)
    ensures
        spec_zigzag(spec_zigzag_encode_i64(v) as nat) == v,
{
    let u = spec_zigzag_encode_i64(v);
    assert(u & 1 == 0 <==> u % 2 == 0) by (bit_vector);
    assert(v >= 0 ==> u & 1 == 0 && u >> 1 == v) by (bit_vector)
        requires
            u == ((v << 1u64) ^ (v >> 63u64)) as u64,
    ;
    assert(v < 0 ==> u & 1 != 0 && (!(u >> 1)) as i64 == v) by (bit_vector)
        requires
            u == ((v << 1u64) ^ (v >> 63u64)) as u64,
    ;
    assert((u & 1 == 0 ==> u >> 1 == u / 2) && (u & 1 != 0 ==> u >> 1 == (u - 1) / 2) && (u >> 1)
        < 0x8000_0000_0000_0000) by (bit_vector);
    let h = u >> 1;
    assert((!h) as i64 == -1 - (h as i64)) by (bit_vector)
        requires
            h < 0x8000_0000_0000_0000,
    ;
}

impl Encoding for Varint<bool> {
    type Wire = WireVarint;
    type Repr = bool;

    open spec fn spec_decode(w: <WireVarint as NumericWireType>::Repr) -> Option<bool> {
        if w == 0 {
            Some(false)
        } else if w == 1 {
            Some(true)
        } else {
            None
        }
    }

    open spec fn spec_encode(v: bool) -> <WireVarint as NumericWireType>::Repr {
        if v { 1 } else { 0 }
    }

    proof fn lemma_decode_encode(v: bool) {

    }

    open spec fn spec_default() -> bool {
        false
    }

    fn decode(w: <WireVarint as NumericWireType>::Repr) -> (r: Result<bool, StopScan>) {
        if w == 0 {
            Ok(false)
        } else if w == 1 {
            Ok(true)
        } else {
            Err(StopScan)
        }
    }

    fn default_repr() -> (r: bool) {
        false
    }

    fn same_value(a: bool, b: bool) -> (r: bool) {
        a == b
    }
}

impl Encoding for Varint<i32> {
    type Wire = WireVarint;
    type Repr = i32;

    open spec fn spec_decode(w: <WireVarint as NumericWireType>::Repr) -> Option<i32> {
        let v = w as i64;
        if i32::MIN <= v <= i32::MAX {
            Some(v as i32)
        } else {
            None
        }
    }

    open spec fn spec_encode(v: i32) -> <WireVarint as NumericWireType>::Repr {
        (v as i64) as u64
    }

    proof fn lemma_decode_encode(v: i32) {
        let w = (v as i64) as u64;
        assert((w as i64) == (v as i64)) by (bit_vector)
            requires
                w == (v as i64) as u64,
        ;
    }

    open spec fn spec_default() -> i32 {
        0
    }

    fn decode(w: <WireVarint as NumericWireType>::Repr) -> (r: Result<i32, StopScan>) {
        let v = w as i64;
        if i32::MIN as i64 <= v && v <= i32::MAX as i64 {
            Ok(v as i32)
        } else {
            Err(StopScan)
        }
    }

    fn default_repr() -> (r: i32) {
        0
    }

    fn same_value(a: i32, b: i32) -> (r: bool) {
        a == b
    }
}

impl Encoding for Varint<i64> {
    type Wire = WireVarint;
    type Repr = i64;

    open spec fn spec_decode(w: <WireVarint as NumericWireType>::Repr) -> Option<i64> {
        Some(w as i64)
    }

    open spec fn spec_encode(v: i64) -> <WireVarint as NumericWireType>::Repr {
        v as u64
    }

    proof fn lemma_decode_encode(v: i64) {
        let w = v as u64;
        assert((w as i64) == v) by (bit_vector)
            requires
                w == v as u64,
        ;
    }

    open spec fn spec_default() -> i64 {
        0
    }

    fn decode(w: <WireVarint as NumericWireType>::Repr) -> (r: Result<i64, StopScan>) {
        Ok(w as i64)
    }

    fn default_repr() -> (r: i64) {
        0
    }

    fn same_value(a: i64, b: i64) -> (r: bool) {
        a == b
    }
}

impl Encoding for Varint<u32> {
    type Wire = WireVarint;
    type Repr = u32;

    open spec fn spec_decode(w: <WireVarint as NumericWireType>::Repr) -> Option<u32> {
        if w <= u32::MAX {
            Some(w as u32)
        } else {
            None
        }
    }

    open spec fn spec_encode(v: u32) -> <WireVarint as NumericWireType>::Repr {
        v as u64
    }

    proof fn lemma_decode_encode(v: u32) {

    }

    open spec fn spec_default() -> u32 {
        0
    }

    fn decode(w: <WireVarint as NumericWireType>::Repr) -> (r: Result<u32, StopScan>) {
        if w <= u32::MAX as u64 {
            Ok(w as u32)
        } else {
            Err(StopScan)
        }
    }

    fn default_repr() -> (r: u32) {
        0
    }

    fn same_value(a: u32, b: u32) -> (r: bool) {
        a == b
    }
}

impl Encoding for Varint<u64> {
    type Wire = WireVarint;
    type Repr = u64;

    open spec fn spec_decode(w: <WireVarint as NumericWireType>::Repr) -> Option<u64> {
        Some(w)
    }

    open spec fn spec_encode(v: u64) -> <WireVarint as NumericWireType>::Repr {
        v
    }

    proof fn lemma_decode_encode(v: u64) {

    }

    open spec fn spec_default() -> u64 {
        0
    }

    fn decode(w: <WireVarint as NumericWireType>::Repr) -> (r: Result<u64, StopScan>) {
        Ok(w)
    }

    fn default_repr() -> (r: u64) {
        0
    }

    fn same_value(a: u64, b: u64) -> (r: bool) {
        a == b
    }
}

impl Encoding for Varint<ZigZag<i32>> {
    type Wire = WireVarint;
    type Repr = i32;

    open spec fn spec_decode(w: <WireVarint as NumericWireType>::Repr) -> Option<i32> {
        if w <= u32::MAX {
            Some(spec_zigzag(w as nat) as i32)
        } else {
            None
        }
    }

    open spec fn spec_encode(v: i32) -> <WireVarint as NumericWireType>::Repr {
        spec_zigzag_encode_i32(v) as u64
    }

    proof fn lemma_decode_encode(v: i32) {
        lemma_zigzag_roundtrip_i32(v);
    }

    open spec fn spec_default() -> i32 {
        0
    }

    fn decode(w: <WireVarint as NumericWireType>::Repr) -> (r: Result<i32, StopScan>) {
        if w <= u32::MAX as u64 {
            Ok(zigzag_decode_u32(w as u32) as i32)
        } else {
            Err(StopScan)
        }
    }

    fn default_repr() -> (r: i32) {
        0
    }

    fn same_value(a: i32, b: i32) -> (r: bool) {
        a == b
    }
}

impl Encoding for Varint<ZigZag<i64>> {
    type Wire = WireVarint;
    type Repr = i64;

    open spec fn spec_decode(w: <WireVarint as NumericWireType>::Repr) -> Option<i64> {
        Some(spec_zigzag(w as nat) as i64)
    }

    open spec fn spec_encode(v: i64) -> <WireVarint as NumericWireType>::Repr {
        spec_zigzag_encode_i64(v)
    }

    proof fn lemma_decode_encode(v: i64) {
        lemma_zigzag_roundtrip_i64(v);
    }

    open spec fn spec_default() -> i64 {
        0
    }

    fn decode(w: <WireVarint as NumericWireType>::Repr) -> (r: Result<i64, StopScan>) {
        Ok(zigzag_decode_u64(w) as i64)
    }

    fn default_repr() -> (r: i64) {
        0
    }

    fn same_value(a: i64, b: i64) -> (r: bool) {
        a == b
    }
}

impl Encoding for Fixed<u64> {
    type Wire = I64;
    type Repr = u64;

    open spec fn spec_decode(w: <I64 as NumericWireType>::Repr) -> Option<u64> {
        Some(w)
    }

    open spec fn spec_encode(v: u64) -> <I64 as NumericWireType>::Repr {
        v
    }

    proof fn lemma_decode_encode(v: u64) {

    }

    open spec fn spec_default() -> u64 {
        0
    }

    fn decode(w: <I64 as NumericWireType>::Repr) -> (r: Result<u64, StopScan>) {
        Ok(w)
    }

    fn default_repr() -> (r: u64) {
        0
    }

    fn same_value(a: u64, b: u64) -> (r: bool) {
        a == b
    }
}

impl Encoding for Fixed<u32> {
    type Wire = I32;
    type Repr = u32;

    open spec fn spec_decode(w: <I32 as NumericWireType>::Repr) -> Option<u32> {
        Some(w)
    }

    open spec fn spec_encode(v: u32) -> <I32 as NumericWireType>::Repr {
        v
    }

    proof fn lemma_decode_encode(v: u32) {

    }

    open spec fn spec_default() -> u32 {
        0
    }

    fn decode(w: <I32 as NumericWireType>::Repr) -> (r: Result<u32, StopScan>) {
        Ok(w)
    }

    fn default_repr() -> (r: u32) {
        0
    }

    fn same_value(a: u32, b: u32) -> (r: bool) {
        a == b
    }
}

impl Encoding for Fixed<i64> {
    type Wire = I64;
    type Repr = i64;

    open spec fn spec_decode(w: <I64 as NumericWireType>::Repr) -> Option<i64> {
        Some(w as i64)
    }

    open spec fn spec_encode(v: i64) -> <I64 as NumericWireType>::Repr {
        v as u64
    }

    proof fn lemma_decode_encode(v: i64) {
        let w = v as u64;
        assert((w as i64) == v) by (bit_vector)
            requires
                w == v as u64,
        ;
    }

    open spec fn spec_default() -> i64 {
        0
    }

    fn decode(w: <I64 as NumericWireType>::Repr) -> (r: Result<i64, StopScan>) {
        Ok(w as i64)
    }

    fn default_repr() -> (r: i64) {
        0
    }

    fn same_value(a: i64, b: i64) -> (r: bool) {
        a == b
    }
}

impl Encoding for Fixed<i32> {
    type Wire = I32;
    type Repr = i32;

    open spec fn spec_decode(w: <I32 as NumericWireType>::Repr) -> Option<i32> {
        Some(w as i32)
    }

    open spec fn spec_encode(v: i32) -> <I32 as NumericWireType>::Repr {
        v as u32
    }

    proof fn lemma_decode_encode(v: i32) {
        let w = v as u32;
        assert((w as i32) == v) by (bit_vector)
            requires
                w == v as u32,
        ;
    }

    open spec fn spec_default() -> i32 {
        0
    }

    fn decode(w: <I32 as NumericWireType>::Repr) -> (r: Result<i32, StopScan>) {
        Ok(w as i32)
    }

    fn default_repr() -> (r: i32) {
        0
    }

    fn same_value(a: i32, b: i32) -> (r: bool) {
        a == b
    }
}

} // verus!
