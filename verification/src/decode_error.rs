use vstd::prelude::*;

use core::convert::Infallible;

use crate::read::ReadBytesError;

verus! {

/// Protobuf wire format decode error.
#[derive(Copy, Clone, Debug, PartialEq, Eq, Hash)]
pub enum DecodeError<R> {
    /// Underlying read source error.
    Read(R),
    /// An invalid varint was found.
    InvalidVarint,
    /// The stream ended prematurely.
    UnexpectedEnd,
    /// An unknown wire type was encountered.
    InvalidWireType(u8),
    /// A length-delimited field's purported size was too large.
    TooLargeLengthDelimited(u64),
}

/// Error produced while decoding a single varint.
#[derive(Copy, Clone, Debug, PartialEq, Eq, Hash)]
pub enum DecodeVarintError<R> {
    /// Underlying read source error.
    Read(R),
    /// An invalid varint was found.
    InvalidVarint,
    /// The stream ended prematurely.
    UnexpectedEnd,
}

/// A format error stated without a read source, carried over to a source
/// with error type `E`.
pub open spec fn lift_varint_error<E>(e: DecodeVarintError<Infallible>) -> DecodeVarintError<E> {
    match e {
        DecodeVarintError::InvalidVarint => DecodeVarintError::InvalidVarint,
        _ => DecodeVarintError::UnexpectedEnd,
    }
}

/// A format error stated without a read source, carried over to a source
/// with error type `E`.
pub open spec fn lift_decode_error<E>(e: DecodeError<Infallible>) -> DecodeError<E> {
    match e {
        DecodeError::InvalidVarint => DecodeError::InvalidVarint,
        DecodeError::InvalidWireType(w) => DecodeError::InvalidWireType(w),
        DecodeError::TooLargeLengthDelimited(l) => DecodeError::TooLargeLengthDelimited(l),
        _ => DecodeError::UnexpectedEnd,
    }
}

/// The [`DecodeError`] that corresponds to a [`DecodeVarintError`].
pub open spec fn varint_error_to_decode<R>(value: DecodeVarintError<R>) -> DecodeError<R> {
    match value {
        DecodeVarintError::Read(r) => DecodeError::Read(r),
        DecodeVarintError::InvalidVarint => DecodeError::InvalidVarint,
        DecodeVarintError::UnexpectedEnd => DecodeError::UnexpectedEnd,
    }
}

/// The [`DecodeError`] that corresponds to a [`ReadBytesError`].
pub open spec fn read_error_to_decode<R>(value: ReadBytesError<R>) -> DecodeError<R> {
    match value {
        ReadBytesError::Read(r) => DecodeError::Read(r),
        ReadBytesError::UnexpectedEnd => DecodeError::UnexpectedEnd,
    }
}

impl<R> DecodeError<R> {
    /// Converts a varint decoding error into the general decoding error.
    pub fn from_varint_error(value: DecodeVarintError<R>) -> (r: Self)
        ensures
            r == varint_error_to_decode(value),
    {
        match value {
            DecodeVarintError::Read(r) => DecodeError::Read(r),
            DecodeVarintError::InvalidVarint => DecodeError::InvalidVarint,
            DecodeVarintError::UnexpectedEnd => DecodeError::UnexpectedEnd,
        }
    }

    /// Converts a byte-read error into the general decoding error.
    pub fn from_read_error(value: ReadBytesError<R>) -> (r: Self)
        ensures
            r == read_error_to_decode(value),
    {
        match value {
            ReadBytesError::Read(r) => DecodeError::Read(r),
            ReadBytesError::UnexpectedEnd => DecodeError::UnexpectedEnd,
        }
    }
}

impl<R> From<DecodeVarintError<R>> for DecodeError<R> {
    fn from(value: DecodeVarintError<R>) -> (r: Self) {
        Self::from_varint_error(value)
    }
}

impl<R> vstd::std_specs::convert::FromSpecImpl<DecodeVarintError<R>> for DecodeError<R> {
    open spec fn obeys_from_spec() -> bool {
        true
    }

    open spec fn from_spec(v: DecodeVarintError<R>) -> Self {
        varint_error_to_decode(v)
    }
}

impl<R> From<ReadBytesError<R>> for DecodeError<R> {
    fn from(value: ReadBytesError<R>) -> (r: Self) {
        Self::from_read_error(value)
    }
}

impl<R> vstd::std_specs::convert::FromSpecImpl<ReadBytesError<R>> for DecodeError<R> {
    open spec fn obeys_from_spec() -> bool {
        true
    }

    open spec fn from_spec(v: ReadBytesError<R>) -> Self {
        read_error_to_decode(v)
    }
}

} // verus!
