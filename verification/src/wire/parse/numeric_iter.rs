use vstd::prelude::*;

use core::convert::Infallible;
use core::marker::PhantomData;

use crate::decode_error::{DecodeError, lift_decode_error};
use crate::wire::wire_type::NumericWireType;

verus! {

/// Iterator over the packed values of wire type `W` in a length-delimited
/// field.
pub struct NumericIter<'a, W> {
    inner: &'a [u8],
    _wire_type: PhantomData<W>,
}

impl<'a, W: NumericWireType> NumericIter<'a, W> {
    /// The bytes not yet decoded.
    pub closed spec fn rest(&self) -> Seq<u8> {
        self.inner@
    }

    /// Iterates over the values packed in `inner`.
    pub fn new(inner: &'a [u8]) -> (r: Self)
        ensures
            r.rest() == inner@,
    {
        Self { inner, _wire_type: PhantomData }
    }

    /// Bounds on the number of values left: the bytes left divided by the
    /// longest encoding of the wire type, and divided by the shortest one,
    /// rounded up.
    pub fn size_hint(&self) -> (r: (usize, Option<usize>))
        ensures
            r.0 == self.rest().len() / (W::spec_byte_len().1 as nat),
            r.1 matches Some(u) && u == (self.rest().len() + W::spec_byte_len().0 - 1) / (
                W::spec_byte_len().0 as int),
    {
        let (min, max) = W::byte_len();
        let remaining = self.inner.len();
        let lower = remaining / (max as usize);
        let q = remaining / (min as usize);
        let upper = if remaining % (min as usize) != 0 {
            assert(q < usize::MAX) by (nonlinear_arith)
                requires
                    q == remaining / (min as usize),
                    remaining % (min as usize) != 0,
                    min >= 1,
            ;
            q + 1
        } else {
            q
        };
        assert(upper == (remaining + min - 1) / (min as int)) by (nonlinear_arith)
            requires
                min >= 1,
                q == remaining / (min as usize),
                upper == if remaining % (min as usize) != 0 {
                    q + 1
                } else {
                    q as int
                },
        ;
        (lower, Some(upper))
    }

    /// Returns the next value, an error if it cannot be decoded, or `None`
    /// when the contents are exhausted. An error exhausts the iterator.
    pub fn next(&mut self) -> (r: Option<Result<W::Repr, DecodeError<Infallible>>>)
        ensures
            old(self).rest().len() == 0 ==> r is None && final(self).rest() == old(self).rest(),
            old(self).rest().len() != 0 ==> match W::spec_read_from(old(self).rest()) {
                Ok((v, n)) => r == Some(Ok::<W::Repr, DecodeError<Infallible>>(v)) && final(self).rest() == old(self).rest().skip(n as int),
                Err(e) => r == Some(Err::<W::Repr, DecodeError<Infallible>>(e)) && final(self).rest().len() == 0,
            },
    {
        if self.inner.len() == 0 {
            return None;
        }
        let mut reader = self.inner;
        match W::read_from(&mut reader) {
            Ok(r) => {
                self.inner = reader;
                Some(Ok(r))
            },
            Err(e) => {
                proof {
                    W::lemma_read_progress(old(self).rest());
                }
                self.inner = &[];
                Some(Err(e))
            },
        }
    }
}

} // verus!
