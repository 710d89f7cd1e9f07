use vstd::prelude::*;

use core::convert::Infallible;

use crate::decode_error::DecodeError;

verus! {

/// Error produced during a protobuf message scan.
#[derive(Copy, Clone, Debug, PartialEq, Eq)]
pub enum ScanError<R> {
    /// A protobuf wire format error was encountered.
    Decode(DecodeError<R>),
    /// A varint value exceeded the bounds of the message field's declared type.
    VarintOutOfBounds,
    /// A field had a different wire type than expected.
    WrongWireType,
    /// A string field contained invalid UTF-8 data.
    Utf8,
    /// Protobuf groups were nested deeper than the group stack allows.
    GroupOverflow,
    /// An EGROUP tag was missing or didn't have a matching SGROUP tag.
    GroupMismatch,
}

/// The error type of scans over in-memory input.
pub type ScanErr = ScanError<Infallible>;

/// A decoded value that does not fit the field's declared type.
#[derive(Copy, Clone, Debug, PartialEq, Eq, Structural)]
pub struct StopScan;

impl<R> ScanError<R> {
    /// Wraps a wire format error.
    pub fn from_decode(value: DecodeError<R>) -> (r: Self)
        ensures
            r == ScanError::Decode(value),
    {
        ScanError::Decode(value)
    }
}

impl<R> From<DecodeError<R>> for ScanError<R> {
    fn from(value: DecodeError<R>) -> (r: Self) {
        Self::from_decode(value)
    }
}

impl<R> vstd::std_specs::convert::FromSpecImpl<DecodeError<R>> for ScanError<R> {
    open spec fn obeys_from_spec() -> bool {
        true
    }

    open spec fn from_spec(v: DecodeError<R>) -> Self {
        ScanError::Decode(v)
    }
}

impl<R> From<StopScan> for ScanError<R> {
    fn from(value: StopScan) -> (r: Self) {
        ScanError::VarintOutOfBounds
    }
}

impl<R> vstd::std_specs::convert::FromSpecImpl<StopScan> for ScanError<R> {
    open spec fn obeys_from_spec() -> bool {
        true
    }

    open spec fn from_spec(v: StopScan) -> Self {
        ScanError::VarintOutOfBounds
    }
}

} // verus!
