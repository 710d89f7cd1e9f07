use vstd::prelude::*;

use crate::decode_error::DecodeVarintError;
use crate::read::{Read, ReadBuffer, ReadBytesError, buffer_view};
use crate::wire::{
    VARINT_MAX_BYTES, VarintStep, spec_parse_varint, spec_parse_varint_from, varint_prefix_value,
    varint_step,
};

verus! {

/// A reader that hands out at most `remaining` more bytes of an inner reader.
pub struct LimitReader<R> {
    inner: R,
    remaining: u32,
}

impl<R> LimitReader<R> {
    /// The wrapped reader.
    pub closed spec fn inner(&self) -> R {
        self.inner
    }

    /// The number of bytes the limit still allows.
    pub closed spec fn spec_remaining(&self) -> u32 {
        self.remaining
    }

    /// Limits `inner` to `remaining` bytes.
    pub fn new(inner: R, remaining: u32) -> (r: Self)
        ensures
            r.inner() == inner,
            r.spec_remaining() == remaining,
    {
        Self { inner, remaining }
    }

    /// The number of bytes the limit still allows.
    pub fn remaining(&self) -> (r: u32)
        ensures
            r == self.spec_remaining(),
    {
        self.remaining
    }

    /// The inner reader.
    pub fn inner_ref(&self) -> (r: &R)
        ensures
            *r == self.inner(),
    {
        &self.inner
    }

    /// Unwraps the inner reader.
    pub fn into_inner(self) -> (r: R)
        ensures
            r == self.inner(),
    {
        self.inner
    }
}

impl<R: Read> LimitReader<R> {
    /// The bytes this reader can still hand out: the inner reader's bytes, cut
    /// at the limit.
    pub open spec fn stream(&self) -> Seq<u8> {
        let s = self.inner().stream();
        s.take(vstd::math::min(self.spec_remaining() as int, s.len() as int))
    }

    /// Reads `bytes` bytes, failing with `UnexpectedEnd` if that exceeds the
    /// limit or what the inner reader has.
    pub fn read(&mut self, bytes: u32) -> (r: Result<R::Buffer, ReadBytesError<R::Error>>)
        ensures
            !(r matches Err(ReadBytesError::Read(_))) ==> if bytes <= old(self).spec_remaining()
                && bytes <= old(self).inner().stream().len() {
                r matches Ok(b) && b@ == old(self).inner().stream().take(bytes as int)
                    && final(self).inner().stream() == old(self).inner().stream().skip(bytes as int)
                    && final(self).spec_remaining() == old(self).spec_remaining() - bytes
            } else {
                r == Err::<R::Buffer, ReadBytesError<R::Error>>(ReadBytesError::UnexpectedEnd)
            },
            r is Err ==> final(self).spec_remaining() == old(self).spec_remaining(),
            R::infallible() ==> !(r matches Err(ReadBytesError::Read(_))),
    {
        if bytes > self.remaining {
            return Err(ReadBytesError::UnexpectedEnd);
        }
        let r = match self.inner.read(bytes) {
            Ok(r) => r,
            Err(e) => return Err(e),
        };
        self.remaining = self.remaining - bytes;
        Ok(r)
    }

    /// Skips `bytes` bytes of the inner reader and lowers the limit by as much;
    /// skipping past the limit fails with `UnexpectedEnd` and leaves the
    /// reader as it was.
    pub fn skip(&mut self, bytes: u32) -> (r: Result<u32, ReadBytesError<R::Error>>)
        ensures
            bytes > old(self).spec_remaining() ==> r == Err::<u32, ReadBytesError<R::Error>>(
                ReadBytesError::UnexpectedEnd,
            ) && *final(self) == *old(self),
            !(r matches Err(ReadBytesError::Read(_))) && bytes <= old(self).spec_remaining() ==> if bytes <= old(self).inner().stream().len() {
                r == Ok::<u32, ReadBytesError<R::Error>>(bytes) && final(self).inner().stream()
                    == old(self).inner().stream().skip(bytes as int) && final(self).spec_remaining()
                    == old(self).spec_remaining() - bytes
            } else {
                r == Err::<u32, ReadBytesError<R::Error>>(ReadBytesError::UnexpectedEnd)
            },
            r is Err ==> final(self).spec_remaining() == old(self).spec_remaining(),
            R::infallible() ==> !(r matches Err(ReadBytesError::Read(_))),
    {
        if bytes > self.remaining {
            return Err(ReadBytesError::UnexpectedEnd);
        }
        let skipped = match self.inner.skip(bytes) {
            Ok(s) => s,
            Err(e) => return Err(e),
        };
        self.remaining = self.remaining - skipped;
        Ok(skipped)
    }

    /// Reads a varint, one byte at a time through the limit; the limit drops
    /// by the number of bytes the varint occupies.
    pub fn read_varint(&mut self) -> (r: Result<u64, DecodeVarintError<R::Error>>)
        ensures
            !(r matches Err(DecodeVarintError::Read(_))) ==> match spec_parse_varint(
                old(self).stream(),
            ) {
                Ok((v, n)) => r == Ok::<u64, DecodeVarintError<R::Error>>(v) && final(self).inner().stream() == old(self).inner().stream().skip(n as int) && final(self).spec_remaining() == old(self).spec_remaining() - n,
                Err(e) => r == Err::<u64, DecodeVarintError<R::Error>>(
                    crate::decode_error::lift_varint_error(e),
                ),
            },
            R::infallible() ==> !(r matches Err(DecodeVarintError::Read(_))),
    {
        let ghost s0 = self.stream();
            let mut value: u64 = 0;
            let mut i: u8 = 0;
            while i < VARINT_MAX_BYTES
                invariant
                    i <= 10,
                    i <= s0.len(),
                    s0 == old(self).stream(),
                    self.spec_remaining() == old(self).spec_remaining() - i,
                    self.inner().stream() == old(self).inner().stream().skip(i as int),
                    value == varint_prefix_value(s0, i as nat),
                    spec_parse_varint_from(s0, i as nat) == spec_parse_varint(s0),
                decreases 10 - i,
            {
                let b = match self.read(1) {
                    Ok(buf) => {
                        let bytes = buf.as_bytes();
                        if bytes.len() != 1 {
                            return Err(DecodeVarintError::UnexpectedEnd);
                        }
                        bytes[0]
                    },
                    Err(ReadBytesError::UnexpectedEnd) => {
                        return Err(DecodeVarintError::UnexpectedEnd);
                    },
                    Err(ReadBytesError::Read(e)) => {
                        return Err(DecodeVarintError::Read(e));
                    },
                };
                assert(b == s0[i as int]);
                match varint_step(value, i, b, Ghost(s0)) {
                    VarintStep::Done(v, _) => return Ok(v),
                    VarintStep::Invalid => return Err(DecodeVarintError::InvalidVarint),
                    VarintStep::More(v) => value = v,
                }
                i = i + 1;
            }
            Err(DecodeVarintError::InvalidVarint)
    }
}

} // verus!
