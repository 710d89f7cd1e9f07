use vstd::prelude::*;

use crate::decode_error::DecodeVarintError;
use crate::read::{Read, ReadBuffer, ReadBytesError};
use crate::wire::{spec_varint_encoded_length, varint_encoded_length};

verus! {

/// A reader that counts what passes through it.
///
/// The count grows by the read buffer's length on `read`, by the skipped
/// amount on `skip`, and on `read_varint` by [`varint_encoded_length`] of the
/// value: the length of its encoding, which is the number of bytes read for
/// every varint the decoder accepts but a ten-byte one whose last byte holds
/// bits beyond the 64th.
pub struct CountReader<R> {
    inner: R,
    count: usize,
}

impl<R> CountReader<R> {
    /// The wrapped reader.
    pub closed spec fn inner(&self) -> R {
        self.inner
    }

    /// The count so far.
    pub closed spec fn spec_count(&self) -> usize {
        self.count
    }

    /// Wraps `reader` with a count of zero.
    pub fn new(reader: R) -> (r: Self)
        ensures
            r.inner() == reader,
            r.spec_count() == 0,
    {
        CountReader { inner: reader, count: 0 }
    }

    /// Returns the count so far.
    pub fn count(&self) -> (r: usize)
        ensures
            r == self.spec_count(),
    {
        self.count
    }

    /// Unwraps the inner reader.
    pub fn into_inner(self) -> (r: R)
        ensures
            r == self.inner(),
    {
        self.inner
    }
}

impl<R: Read> Read for CountReader<R> {
    type Error = R::Error;
    type Buffer = R::Buffer;

    open spec fn stream(&self) -> Seq<u8> {
        self.inner().stream()
    }

    open spec fn infallible() -> bool {
        R::infallible()
    }

    open spec fn atomic() -> bool {
        R::atomic()
    }

    fn read_varint(&mut self) -> (r: Result<u64, DecodeVarintError<R::Error>>)
        ensures
            r matches Ok(v) ==> final(self).spec_count() == vstd::math::min(
                old(self).spec_count() + spec_varint_encoded_length(v),
                usize::MAX as int,
            ),
            r is Err ==> final(self).spec_count() == old(self).spec_count(),
    {
        let r = match self.inner.read_varint() {
            Ok(r) => r,
            Err(e) => return Err(e),
        };
        self.count = self.count.saturating_add(varint_encoded_length(r) as usize);
        Ok(r)
    }

    fn read(&mut self, bytes: u32) -> (r: Result<R::Buffer, ReadBytesError<R::Error>>)
        ensures
            r matches Ok(b) ==> final(self).spec_count() == vstd::math::min(
                old(self).spec_count() + b@.len(),
                usize::MAX as int,
            ),
            r is Err ==> final(self).spec_count() == old(self).spec_count(),
    {
        let r = match self.inner.read(bytes) {
            Ok(r) => r,
            Err(e) => return Err(e),
        };
        self.count = self.count.saturating_add(r.as_bytes().len());
        Ok(r)
    }

    fn skip(&mut self, bytes: u32) -> (r: Result<u32, ReadBytesError<R::Error>>)
        ensures
            r matches Ok(n) ==> final(self).spec_count() == vstd::math::min(
                old(self).spec_count() + n,
                usize::MAX as int,
            ),
            r is Err ==> final(self).spec_count() == old(self).spec_count(),
    {
        let r = match self.inner.skip(bytes) {
            Ok(r) => r,
            Err(e) => return Err(e),
        };
        self.count = self.count.saturating_add(r as usize);
        Ok(r)
    }
}

} // verus!
