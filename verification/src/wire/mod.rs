//! The low-level event interface: a protobuf byte stream read as a sequence
//! of tags and their contents.
use vstd::prelude::*;

use core::convert::Infallible;

use crate::decode_error::DecodeVarintError;

pub mod numeric_field;
pub mod parse;
pub mod scalar_field;
mod sealed;
pub mod tag;
pub mod wire_type;

pub use numeric_field::NumericField;
pub use parse::{GroupOp, LengthDelimited, ParseEvent, ParseEventReader, parse};
pub use scalar_field::ScalarField;
pub use tag::{Tag, WireType};
pub use wire_type::{I32, I64, NumericWireType, Varint};

verus! {

/// The largest number of bytes a varint may occupy.
pub const VARINT_MAX_BYTES: u8 = 10;

/// The seven payload bits carried by one varint byte.
pub open spec fn varint_chunk(b: u8) -> u64 {
    (b & 0x7f) as u64
}

/// Whether a varint byte announces that another byte follows.
pub open spec fn varint_continues(b: u8) -> bool {
    b & 0x80 != 0
}

/// The value assembled from the first `n` bytes of `s`: byte `j` supplies bits
/// `7 * j` and up, shifted within 64 bits.
pub open spec fn varint_prefix_value(s: Seq<u8>, n: nat) -> u64
    decreases n,
{
    if n == 0 {
        0
    } else {
        varint_prefix_value(s, (n - 1) as nat) | (varint_chunk(s[n - 1]) << ((7 * (n - 1)) as u64))
    }
}

/// Decoding of a varint whose first `i` bytes all carry the continuation bit.
pub open spec fn spec_parse_varint_from(s: Seq<u8>, i: nat) -> Result<
    (u64, u8),
    DecodeVarintError<Infallible>,
>
    decreases 10 - i,
{
    if i >= 10 {
        Err(DecodeVarintError::InvalidVarint)
    } else if i >= s.len() {
        Err(DecodeVarintError::UnexpectedEnd)
    } else if !varint_continues(s[i as int]) {
        if i != 0 && s[i as int] & 0x7f == 0 {
            Err(DecodeVarintError::InvalidVarint)
        } else {
            Ok((varint_prefix_value(s, i + 1), (i + 1) as u8))
        }
    } else {
        spec_parse_varint_from(s, i + 1)
    }
}

/// The result of decoding a base-128 varint from the front of `s`: its value
/// and the number of bytes it occupies. The varint ends at the first byte
/// without the continuation bit; it may be at most ten bytes long, and a final
/// byte of zero after the first position makes the encoding invalid.
pub open spec fn spec_parse_varint(s: Seq<u8>) -> Result<(u64, u8), DecodeVarintError<Infallible>> {
    spec_parse_varint_from(s, 0)
}

/// The canonical varint encoding of `v`: seven bits per byte, least
/// significant group first, the continuation bit set on every byte but the
/// last.
pub open spec fn spec_serialize_varint(v: u64) -> Seq<u8>
    decreases v,
{
    if v >> 7u64 == 0 {
        seq![v as u8]
    } else {
        proof {
            assert(v >> 7u64 != 0 ==> v >> 7u64 < v) by (bit_vector);
        }
        seq![((v & 0x7f) | 0x80) as u8] + spec_serialize_varint(v >> 7u64)
    }
}

/// The number of significant bits of `value`.
pub open spec fn varint_bit_length(value: u64) -> int {
    64 - vstd::std_specs::bits::u64_leading_zeros(value)
}

/// The number of bytes of the varint encoding of `value`: one byte per seven
/// significant bits, rounded up, and one byte for zero.
pub open spec fn spec_varint_encoded_length(value: u64) -> u8 {
    if varint_bit_length(value) == 0 {
        1
    } else {
        ((varint_bit_length(value) + 6) / 7) as u8
    }
}

/// The low `7 * n` bits of a 64-bit value (all of them from `n = 10` on).
pub open spec fn varint_low_mask(n: nat) -> u64 {
    if 7 * n >= 64 {
        u64::MAX
    } else {
        ((1u64 << ((7 * n) as u64)) - 1) as u64
    }
}

proof fn lemma_shift_compose(v: u64, j: u64)
    requires
        1 <= j <= 9,
    ensures
        (v >> 7u64) >> (7 * (j - 1)) as u64 == v >> (7 * j) as u64,
{
    let a = (7 * (j - 1)) as u64;
    let b = (7 * j) as u64;
    assert((v >> 7u64) >> a == v >> b) by (bit_vector)
        requires
            b == a + 7,
            b <= 63,
    ;
}

/// Lengths of serialized varints: a value below `2^(7k)` takes at most `k` bytes.
proof fn lemma_serialize_len_bound(v: u64, k: nat)
    requires
        1 <= k <= 9,
        v >> (7 * k) as u64 == 0,
    ensures
        spec_serialize_varint(v).len() <= k,
    decreases v,
{
    if v >> 7u64 != 0 {
        let w = v >> 7u64;
        assert(v >> 7u64 != 0 ==> v >> 7u64 < v) by (bit_vector);
        if k == 1 {
            assert(false);
        }
        lemma_shift_compose(v, k as u64);
        lemma_serialize_len_bound(w, (k - 1) as nat);
    }
}

/// The shape of a serialized varint: byte `j` carries bits `7j..7j+7` of the
/// value, every byte but the last has the continuation bit, the last byte is
/// not zero unless the value is a single byte, and at most ten bytes are used.
pub proof fn lemma_serialize_shape(v: u64)
    ensures
        1 <= spec_serialize_varint(v).len() <= 10,
        forall|j: int|
            0 <= j < spec_serialize_varint(v).len() ==> (#[trigger] spec_serialize_varint(v)[j]) & 0x7f
                == ((v >> (7 * j) as u64) & 0x7f) as u8 && (varint_continues(
                spec_serialize_varint(v)[j],
            ) <==> j < spec_serialize_varint(v).len() - 1),
        spec_serialize_varint(v).len() < 10 ==> v >> (7 * spec_serialize_varint(v).len()) as u64
            == 0,
        spec_serialize_varint(v).len() > 1 ==> spec_serialize_varint(v)[spec_serialize_varint(
            v,
        ).len() - 1] & 0x7f != 0,
    decreases v,
{
    let s = spec_serialize_varint(v);
    if v >> 7u64 == 0 {
        let b = v as u8;
        assert(b & 0x7f == ((v >> 0u64) & 0x7f) as u8 && b & 0x80 == 0) by (bit_vector)
            requires
                b == v as u8,
                v >> 7u64 == 0,
        ;
        assert(7 * 1 == 7);
    } else {
        let w = v >> 7u64;
        assert(v >> 7u64 != 0 ==> v >> 7u64 < v) by (bit_vector);
        lemma_serialize_shape(w);
        let t = spec_serialize_varint(w);
        assert(w >> 63u64 == 0) by (bit_vector)
            requires
                w == v >> 7u64,
        ;
        lemma_serialize_len_bound(w, 9);
        let c0 = ((v & 0x7f) | 0x80) as u8;
        assert(s == seq![c0] + t);
        assert(c0 & 0x7f == ((v >> 0u64) & 0x7f) as u8 && c0 & 0x80 != 0) by (bit_vector)
            requires
                c0 == ((v & 0x7f) | 0x80) as u8,
        ;
        assert forall|j: int| 0 <= j < s.len() implies (#[trigger] s[j]) & 0x7f == ((v >> (7
            * j) as u64) & 0x7f) as u8 && (varint_continues(s[j]) <==> j < s.len() - 1) by {
            if j == 0 {
                assert(7 * j == 0);
            } else {
                assert(s[j] == t[j - 1]);
                lemma_shift_compose(v, j as u64);
            }
        }
        if s.len() < 10 {
            lemma_shift_compose(v, s.len() as u64);
        }
        if s.len() > 1 && t.len() == 1 {
            assert(w as u8 & 0x7f != 0) by (bit_vector)
                requires
                    w >> 7u64 == 0,
                    w != 0,
            ;
        }
    }
}

proof fn lemma_mask_step(v: u64, n: nat)
    requires
        n <= 9,
    ensures
        (v & varint_low_mask(n)) | (((v >> (7 * n) as u64) & 0x7f) << (7 * n) as u64) == v
            & varint_low_mask(n + 1),
{
    let k = (7 * n) as u64;
    if n <= 8 {
        assert((v & ((1u64 << k) - 1) as u64) | (((v >> k) & 0x7f) << k) == v & ((1u64 << (k
            + 7) as u64) - 1) as u64) by (bit_vector)
            requires
                k <= 56,
        ;
        assert((7 * (n + 1)) as u64 == (k + 7) as u64);
    } else {
        assert((v & ((1u64 << 63u64) - 1) as u64) | (((v >> 63u64) & 0x7f) << 63u64) == v & 0xffff_ffff_ffff_ffffu64)
            by (bit_vector);
    }
}

/// The value assembled from the first `n` bytes of a serialized varint is the
/// value's low `7n` bits.
proof fn lemma_serialize_prefix_value(v: u64, rest: Seq<u8>, n: nat)
    requires
        n <= spec_serialize_varint(v).len(),
    ensures
        varint_prefix_value(spec_serialize_varint(v) + rest, n) == v & varint_low_mask(n),
    decreases n,
{
    let s = spec_serialize_varint(v) + rest;
    if n == 0 {
        assert(v & ((1u64 << 0u64) - 1) as u64 == 0) by (bit_vector);
    } else {
        let m = (n - 1) as nat;
        lemma_serialize_prefix_value(v, rest, m);
        lemma_serialize_shape(v);
        let b = spec_serialize_varint(v)[m as int];
        assert(s[m as int] == b);
        let x = v >> (7 * m) as u64;
        assert(b & 0x7f == (x & 0x7f) as u8);
        assert(((b & 0x7f) as u64) == x & 0x7f) by (bit_vector)
            requires
                b & 0x7f == (x & 0x7f) as u8,
        ;
        lemma_mask_step(v, m);
    }
}

proof fn lemma_parse_serialized_from(v: u64, rest: Seq<u8>, i: nat)
    requires
        i < spec_serialize_varint(v).len(),
    ensures
        spec_parse_varint_from(spec_serialize_varint(v) + rest, i) == Ok::<
            (u64, u8),
            DecodeVarintError<Infallible>,
        >(
            (
                varint_prefix_value(
                    spec_serialize_varint(v) + rest,
                    spec_serialize_varint(v).len(),
                ),
                spec_serialize_varint(v).len() as u8,
            ),
        ),
    decreases spec_serialize_varint(v).len() - i,
{
    let t = spec_serialize_varint(v);
    let s = t + rest;
    lemma_serialize_shape(v);
    assert(s[i as int] == t[i as int]);
    if i + 1 < t.len() {
        lemma_parse_serialized_from(v, rest, i + 1);
    } else {
        assert(i + 1 == t.len());
    }
}

/// Decoding the varint encoding of `v`, followed by any bytes, gives back `v`
/// and the length of the encoding, which is between one and ten bytes.
pub proof fn lemma_varint_roundtrip(v: u64, rest: Seq<u8>)
    ensures
        1 <= spec_serialize_varint(v).len() <= 10,
        spec_parse_varint(spec_serialize_varint(v) + rest) == Ok::<
            (u64, u8),
            DecodeVarintError<Infallible>,
        >((v, spec_serialize_varint(v).len() as u8)),
{
    let t = spec_serialize_varint(v);
    lemma_serialize_shape(v);
    lemma_parse_serialized_from(v, rest, 0);
    lemma_serialize_prefix_value(v, rest, t.len());
    if t.len() < 10 {
        let k = (7 * t.len()) as u64;
        assert(v & ((1u64 << k) - 1) as u64 == v) by (bit_vector)
            requires
                v >> k == 0,
                k <= 63,
        ;
    } else {
        assert(v & 0xffff_ffff_ffff_ffffu64 == v) by (bit_vector);
    }
}

/// [`varint_encoded_length`] is the length of the varint encoding.
pub proof fn lemma_varint_encoded_length(v: u64)
    ensures
        spec_varint_encoded_length(v) as int == spec_serialize_varint(v).len(),
{
    lemma_bit_length_encoding(v);
    vstd::std_specs::bits::axiom_u64_leading_zeros(v);
}

/// The encoding of `v` has one byte more than its bit length divided by
/// seven, but where that bit length is a positive multiple of seven.
proof fn lemma_bit_length_encoding(v: u64)
    ensures
        (varint_bit_length(v) / 7 + 1) == if v != 0 && varint_bit_length(v) % 7 == 0 {
            spec_serialize_varint(v).len() + 1int
        } else {
            spec_serialize_varint(v).len() as int
        },
{
    vstd::std_specs::bits::axiom_u64_leading_zeros(v);
    lemma_serialize_shape(v);
    let lz = vstd::std_specs::bits::u64_leading_zeros(v);
    let len = spec_serialize_varint(v).len();
    let b = (64 - lz) as u64;
    // The last byte of a longer encoding holds a bit at or above bit
    // 7 * (len - 1).
    if len > 1 {
        let x = (7 * (len - 1)) as u64;
        let last = spec_serialize_varint(v)[len - 1];
        assert(last & 0x7f == ((v >> x) & 0x7f) as u8);
        assert(v >> x != 0 && v != 0) by (bit_vector)
            requires
                last & 0x7f != 0,
                last & 0x7f == ((v >> x) & 0x7f) as u8,
        ;
        assert((v >> b == 0 && b <= x) ==> v >> x == 0) by (bit_vector);
    }
    if v != 0 {
        let top = (63 - lz) as u64;
        assert(v >> top != 0) by (bit_vector)
            requires
                (v >> top) & 1u64 != 0u64,
        ;
        // The top bit is below bit 7 * len.
        if len < 10 {
            let k = (7 * len) as u64;
            assert((v >> k == 0 && k <= top) ==> v >> top == 0) by (bit_vector);
        }
    }
}

/// Bytes after the first `n` do not change the value assembled from them.
proof fn lemma_prefix_value_extend(s: Seq<u8>, t: Seq<u8>, n: nat)
    requires
        n <= s.len(),
    ensures
        varint_prefix_value(s + t, n) == varint_prefix_value(s, n),
    decreases n,
{
    if n > 0 {
        lemma_prefix_value_extend(s, t, (n - 1) as nat);
        assert((s + t)[n - 1] == s[n - 1]);
    }
}

/// A varint that `s` holds whole decodes the same with any bytes after it.
pub proof fn lemma_parse_varint_extend(s: Seq<u8>, t: Seq<u8>, i: nat)
    requires
        spec_parse_varint_from(s, i) is Ok,
    ensures
        spec_parse_varint_from(s + t, i) == spec_parse_varint_from(s, i),
    decreases 10 - i,
{
    if i < 10 && i < s.len() {
        assert((s + t)[i as int] == s[i as int]);
        if !varint_continues(s[i as int]) {
            lemma_prefix_value_extend(s, t, i + 1);
        } else {
            lemma_parse_varint_extend(s, t, i + 1);
        }
    }
}

/// What one more byte does to a varint being decoded.
pub(crate) enum VarintStep {
    /// The varint ends with this byte: its value and length.
    Done(u64, u8),
    /// The varint is not validly encoded.
    Invalid,
    /// Another byte follows; the value assembled so far.
    More(u64),
}

/// Takes byte `i` of a varint, `b`, into the value `value` assembled from
/// the bytes before it.
pub(crate) fn varint_step(value: u64, i: u8, b: u8, s: Ghost<Seq<u8>>) -> (r: VarintStep)
    requires
        i < 10,
        i < s@.len(),
        s@[i as int] == b,
        value == varint_prefix_value(s@, i as nat),
    ensures
        match r {
            VarintStep::Done(v, n) => n == i + 1 && spec_parse_varint_from(s@, i as nat) == Ok::<
                (u64, u8),
                DecodeVarintError<Infallible>,
            >((v, n)),
            VarintStep::Invalid => spec_parse_varint_from(s@, i as nat) == Err::<
                (u64, u8),
                DecodeVarintError<Infallible>,
            >(DecodeVarintError::InvalidVarint),
            VarintStep::More(v) => i + 1 < 11 && v == varint_prefix_value(s@, (i + 1) as nat)
                && spec_parse_varint_from(s@, i as nat) == spec_parse_varint_from(s@, (i + 1) as nat),
        },
{
    let byte = b & !0x80u8;
    let continue_flag = b & 0x80 != 0;
    assert(b & !0x80u8 == b & 0x7f) by (bit_vector);
    if i != 0 && !continue_flag && byte == 0 {
        return VarintStep::Invalid;
    }
    let value = value | ((byte as u64) << ((i as u64) * 7));
    if !continue_flag {
        VarintStep::Done(value, i + 1)
    } else {
        VarintStep::More(value)
    }
}

/// The bytes that `s` holds before its first read error.
pub open spec fn ok_bytes<E>(s: Seq<Result<u8, E>>) -> Seq<u8>
    decreases s.len(),
{
    if s.len() == 0 {
        Seq::empty()
    } else {
        match s[0] {
            Ok(b) => seq![b] + ok_bytes(s.drop_first()),
            Err(_) => Seq::empty(),
        }
    }
}

/// Decoding a varint from a source of bytes that may fail: the decoding of
/// the bytes before the first read error, where those suffice; the read
/// error where the varint runs into it.
pub open spec fn spec_parse_varint_items<E>(s: Seq<Result<u8, E>>) -> Result<
    (u64, u8),
    DecodeVarintError<E>,
> {
    match spec_parse_varint(ok_bytes(s)) {
        Ok((v, n)) => Ok((v, n)),
        Err(DecodeVarintError::UnexpectedEnd) => if ok_bytes(s).len() < s.len() {
            match s[ok_bytes(s).len() as int] {
                Err(e) => Err(DecodeVarintError::Read(e)),
                Ok(_) => Err(DecodeVarintError::UnexpectedEnd),
            }
        } else {
            Err(DecodeVarintError::UnexpectedEnd)
        },
        Err(e) => Err(crate::decode_error::lift_varint_error(e)),
    }
}

/// The first `j` items of `s` are bytes: they begin `ok_bytes(s)`, which
/// ends at `j` where the item there is an error or `s` ends.
proof fn lemma_ok_bytes<E>(s: Seq<Result<u8, E>>, j: nat)
    requires
        j <= s.len(),
        forall|i: int| 0 <= i < j ==> (#[trigger] s[i]) is Ok,
    ensures
        ok_bytes(s).len() >= j,
        forall|i: int| 0 <= i < j ==> ok_bytes(s)[i] == (#[trigger] s[i])->Ok_0,
        j < s.len() && s[j as int] is Err ==> ok_bytes(s).len() == j,
        j == s.len() ==> ok_bytes(s).len() == j,
        ok_bytes(s).len() <= s.len(),
    decreases j,
{
    lemma_ok_bytes_len(s);
    if j > 0 {
        let t = s.drop_first();
        assert forall|i: int| 0 <= i < j - 1 implies (#[trigger] t[i]) is Ok by {
            assert(t[i] == s[i + 1]);
        }
        lemma_ok_bytes::<E>(t, (j - 1) as nat);
        assert(s[0] is Ok);
        assert forall|i: int| 0 <= i < j implies ok_bytes(s)[i] == (#[trigger] s[i])->Ok_0 by {
            if i > 0 {
                assert(t[i - 1] == s[i]);
            }
        }
    }
}

proof fn lemma_ok_bytes_len<E>(s: Seq<Result<u8, E>>)
    ensures
        ok_bytes(s).len() <= s.len(),
    decreases s.len(),
{
    if s.len() > 0 {
        lemma_ok_bytes_len::<E>(s.drop_first());
    }
}

/// Decodes a base-128 varint from the front of `bytes`, a source of bytes
/// that may fail.
///
/// Returns the value and the number of bytes consumed.
pub fn parse_base128_varint<E: Copy>(bytes: &[Result<u8, E>]) -> (r: Result<
    (u64, u8),
    DecodeVarintError<E>,
>)
    ensures
        r == spec_parse_varint_items(bytes@),
{
    let ghost s = bytes@;
    let ghost ok = ok_bytes(s);
    let mut value: u64 = 0;
    let mut i: u8 = 0;
    proof {
        lemma_ok_bytes::<E>(s, 0);
    }
    while i < VARINT_MAX_BYTES
        invariant
            s == bytes@,
            ok == ok_bytes(s),
            i <= 10,
            i <= s.len(),
            i <= ok.len(),
            forall|j: int| 0 <= j < i ==> (#[trigger] s[j]) is Ok,
            value == varint_prefix_value(ok, i as nat),
            spec_parse_varint_from(ok, i as nat) == spec_parse_varint(ok),
        decreases 10 - i,
    {
        if i as usize >= bytes.len() {
            proof {
                lemma_ok_bytes::<E>(s, i as nat);
            }
            return Err(DecodeVarintError::UnexpectedEnd);
        }
        let b = match bytes[i as usize] {
            Ok(b) => b,
            Err(e) => {
                proof {
                    lemma_ok_bytes::<E>(s, i as nat);
                }
                return Err(DecodeVarintError::Read(e));
            },
        };
        proof {
            lemma_ok_bytes::<E>(s, (i + 1) as nat);
            assert(ok[i as int] == b);
        }
        match varint_step(value, i, b, Ghost(ok)) {
            VarintStep::Done(v, n) => return Ok((v, n)),
            VarintStep::Invalid => return Err(DecodeVarintError::InvalidVarint),
            VarintStep::More(v) => value = v,
        }
        i = i + 1;
    }
    Err(DecodeVarintError::InvalidVarint)
}

/// Decodes a base-128 varint from the front of `bytes`.
///
/// Returns the value and the number of bytes consumed.
pub fn parse_varint_bytes(bytes: &[u8]) -> (r: Result<(u64, u8), DecodeVarintError<Infallible>>)
    ensures
        r == spec_parse_varint(bytes@),
{
    let mut value: u64 = 0;
    let mut i: u8 = 0;
    while i < VARINT_MAX_BYTES
        invariant
            i <= 10,
            i <= bytes@.len(),
            value == varint_prefix_value(bytes@, i as nat),
            spec_parse_varint_from(bytes@, i as nat) == spec_parse_varint(bytes@),
        decreases 10 - i,
    {
        if i as usize >= bytes.len() {
            return Err(DecodeVarintError::UnexpectedEnd);
        }
        match varint_step(value, i, bytes[i as usize], Ghost(bytes@)) {
            VarintStep::Done(v, n) => return Ok((v, n)),
            VarintStep::Invalid => return Err(DecodeVarintError::InvalidVarint),
            VarintStep::More(v) => value = v,
        }
        i = i + 1;
    }
    Err(DecodeVarintError::InvalidVarint)
}

/// Encodes `value` as a base-128 varint.
pub fn serialize_base128_varint(value: u64) -> (bytes: Vec<u8>)
    ensures
        bytes@ == spec_serialize_varint(value),
{
    let mut bytes: Vec<u8> = Vec::new();
    let mut rest: u64 = value;
    loop
        invariant
            bytes@ + spec_serialize_varint(rest) == spec_serialize_varint(value),
        decreases rest,
    {
        let mut v: u8 = (rest & 0x7f) as u8;
        assert((rest & 0x7f) < 256) by (bit_vector);
        let ghost before = rest;
        rest = rest >> 7;
        if rest == 0 {
            assert(before & 0x7f == before) by (bit_vector)
                requires
                    before >> 7u64 == 0,
            ;
            bytes.push(v);
            return bytes;
        }
        assert(before >> 7u64 != 0 ==> before >> 7u64 < before) by (bit_vector);
        assert(((before & 0x7f) as u8 | 0x80u8) == ((before & 0x7f) | 0x80) as u8) by (bit_vector);
        v = v | 0x80;
        bytes.push(v);
        assert(bytes@ + spec_serialize_varint(rest) =~= spec_serialize_varint(value));
    }
}

/// The bytes of a varint-sized buffer, each as a successful read, in order.
pub fn varint_bytes_chunk<E>(bytes: &[u8; 10]) -> (r: Vec<Result<u8, E>>)
    ensures
        r@.len() == 10,
        forall|i: int| 0 <= i < 10 ==> r@[i] == Ok::<u8, E>(bytes@[i]),
{
    let mut r: Vec<Result<u8, E>> = Vec::new();
    let mut i: usize = 0;
    while i < 10
        invariant
            i <= 10,
            r@.len() == i,
            forall|j: int| 0 <= j < i ==> r@[j] == Ok::<u8, E>(bytes@[j]),
        decreases 10 - i,
    {
        r.push(Ok(bytes[i]));
        i = i + 1;
    }
    r
}

/// Returns the number of bytes of the varint encoding of `value`.
pub fn varint_encoded_length(value: u64) -> (r: u8)
    ensures
        r == spec_varint_encoded_length(value),
        r == spec_serialize_varint(value).len(),
        1 <= r <= 10,
{
    let zeros = value.leading_zeros();
    proof {
        vstd::std_specs::bits::axiom_u64_leading_zeros(value);
        lemma_varint_encoded_length(value);
        lemma_serialize_shape(value);
    }
    let bits = u64::BITS - zeros;
    if bits == 0 {
        1
    } else {
        ((bits + 6) / 7) as u8
    }
}

} // verus!
