//! Saving a `bytes` or `string` field.
use vstd::prelude::*;

use core::convert::Infallible;

use crate::decode_error::DecodeError;
use crate::read::ReadBuffer;
use crate::scan::error::{ScanErr, ScanError};
use crate::scan::field::OnScanField;
use crate::scan::group::delimited::{GroupDelimitedImpl, GroupModel};
use crate::scan::group::stack::{GroupStack, StackModel};
use crate::scan::{CloneScanner, IntoResettableScanner, IntoScanOutput, ResettableScanner};
use crate::wire::numeric_field::NumericField;
use crate::wire::parse::{DelimitedView, LengthDelimited, LengthDelimitedImpl};

verus! {

/// How the contents of a length-delimited field are interpreted: as bytes
/// (`[u8]`) or as a UTF-8 string (`str`).
///
/// `Value` is what a decoded value stands for in a specification.
pub trait DecodeFromBytes<'a> {
    /// Why decoding can fail.
    type Error;
    /// The decoded value.
    type Decoded: Copy;
    /// What a decoded value stands for.
    type Value;

    /// What `d` stands for.
    spec fn value_of(d: Self::Decoded) -> Self::Value;

    /// What `bytes` decode to, if they can be decoded.
    spec fn spec_decode(bytes: Seq<u8>) -> Option<Self::Value>;

    /// What the empty value stands for.
    spec fn spec_empty() -> Self::Value;

    /// The value of a field that is absent.
    fn empty() -> (r: Self::Decoded)
        ensures
            Self::value_of(r) == Self::spec_empty(),
    ;

    /// Decodes `bytes`.
    fn decode(bytes: &'a [u8]) -> (r: Result<Self::Decoded, Self::Error>)
        ensures
            match Self::spec_decode(bytes@) {
                Some(v) => r matches Ok(d) && Self::value_of(d) == v,
                None => r is Err,
            },
    ;
}

impl<'a> DecodeFromBytes<'a> for str {
    type Error = core::str::Utf8Error;
    type Decoded = &'a str;
    type Value = Seq<char>;

    open spec fn value_of(d: &'a str) -> Seq<char> {
        d@
    }

    open spec fn spec_decode(bytes: Seq<u8>) -> Option<Seq<char>> {
        if vstd::utf8::valid_utf8(bytes) {
            Some(vstd::utf8::decode_utf8(bytes))
        } else {
            None
        }
    }

    open spec fn spec_empty() -> Seq<char> {
        Seq::empty()
    }

    fn empty() -> (r: &'a str) {
        let s: &'a str = "";
        proof {
            reveal_strlit("");
        }
        assert(s@ =~= Seq::<char>::empty());
        s
    }

    fn decode(bytes: &'a [u8]) -> (r: Result<&'a str, core::str::Utf8Error>) {
        bytes.into_string()
    }
}

impl<'a> DecodeFromBytes<'a> for [u8] {
    type Error = Infallible;
    type Decoded = &'a [u8];
    type Value = Seq<u8>;

    open spec fn value_of(d: &'a [u8]) -> Seq<u8> {
        d@
    }

    open spec fn spec_decode(bytes: Seq<u8>) -> Option<Seq<u8>> {
        Some(bytes)
    }

    open spec fn spec_empty() -> Seq<u8> {
        Seq::empty()
    }

    fn empty() -> (r: &'a [u8]) {
        let s: &'a [u8] = &[];
        assert(s@ =~= Seq::<u8>::empty());
        s
    }

    fn decode(bytes: &'a [u8]) -> (r: Result<&'a [u8], Infallible>) {
        Ok(bytes)
    }
}

/// What the contents `c` of a length-delimited field decode to: all of the
/// declared bytes must be there, and they must decode.
pub open spec fn spec_decode_contents<'a, E: DecodeFromBytes<'a> + ?Sized>(c: DelimitedView) -> Result<
    E::Value,
    ScanErr,
> {
    if c.0.len() != c.1 {
        Err(ScanError::Decode(DecodeError::UnexpectedEnd))
    } else {
        match E::spec_decode(c.0) {
            Some(v) => Ok(v),
            None => Err(ScanError::Utf8),
        }
    }
}

/// Reads and decodes the contents of a length-delimited field.
pub fn decode_contents<'a, E: DecodeFromBytes<'a> + ?Sized>(delimited: LengthDelimitedImpl<'a>) -> (r:
    Result<E::Decoded, ScanErr>)
    ensures
        match spec_decode_contents::<E>(delimited@) {
            Ok(v) => r matches Ok(d) && E::value_of(d) == v,
            Err(e) => r matches Err(e2) && e2 == e,
        },
{
    let bytes = match delimited.into_bytes() {
        Ok(b) => b,
        Err(e) => return Err(ScanError::Decode(e)),
    };
    match E::decode(bytes) {
        Ok(d) => Ok(d),
        Err(_) => Err(ScanError::Utf8),
    }
}

/// Scanner that keeps the last value of a `bytes` or `string` field (empty if
/// there is none).
pub struct SaveBytesScanner<'a, E: DecodeFromBytes<'a> + ?Sized>(E::Decoded);

impl<'a, E: DecodeFromBytes<'a> + ?Sized> SaveBytesScanner<'a, E> {
    /// A scanner holding the empty value.
    pub fn new() -> (r: Self)
        ensures
            r.state() == E::spec_empty(),
    {
        Self(E::empty())
    }
}

impl<'a, E: DecodeFromBytes<'a> + ?Sized> IntoScanOutput for SaveBytesScanner<'a, E> {
    type ScanOutput = E::Decoded;
    type State = E::Value;

    closed spec fn state(&self) -> E::Value {
        E::value_of(self.0)
    }

    open spec fn output_matches(st: E::Value, out: E::Decoded) -> bool {
        E::value_of(out) == st
    }

    fn into_scan_output(self) -> (r: E::Decoded) {
        self.0
    }
}

impl<'a, E: DecodeFromBytes<'a> + ?Sized> OnScanField<'a> for SaveBytesScanner<'a, E> {
    open spec fn spec_field_numeric(st: E::Value, value: NumericField) -> Result<E::Value, ScanErr> {
        Err(ScanError::WrongWireType)
    }

    open spec fn spec_field_group(st: E::Value, g: GroupModel) -> Result<(E::Value, GroupModel), ScanErr> {
        Err(ScanError::WrongWireType)
    }

    open spec fn spec_field_delimited(st: E::Value, contents: DelimitedView, stack: StackModel) -> Result<
        (E::Value, StackModel),
        ScanErr,
    > {
        match spec_decode_contents::<E>(contents) {
            Ok(v) => Ok((v, stack)),
            Err(e) => Err(e),
        }
    }

    proof fn lemma_field_group_progress(st: E::Value, g: GroupModel) {
    }

    fn on_numeric(&mut self, _value: NumericField) -> (r: Result<(), ScanErr>) {
        Err(ScanError::WrongWireType)
    }

    fn on_group<G: GroupStack>(
        &mut self,
        _group: &mut GroupDelimitedImpl<'a>,
        _group_stack: &mut G,
    ) -> (r: Result<(), ScanErr>) {
        Err(ScanError::WrongWireType)
    }

    fn on_length_delimited<G: GroupStack>(
        &mut self,
        delimited: LengthDelimitedImpl<'a>,
        _group_stack: &mut G,
    ) -> (r: Result<(), ScanErr>) {
        match decode_contents::<E>(delimited) {
            Ok(d) => {
                self.0 = d;
                Ok(())
            },
            Err(e) => Err(e),
        }
    }
}

impl<'a, E: DecodeFromBytes<'a> + ?Sized> ResettableScanner for SaveBytesScanner<'a, E> {
    open spec fn spec_reset(st: E::Value) -> E::Value {
        E::spec_empty()
    }

    fn reset(&mut self) {
        self.0 = E::empty();
    }
}

impl<'a, E: DecodeFromBytes<'a> + ?Sized> IntoResettableScanner for SaveBytesScanner<'a, E> {
    type Resettable = Self;

    open spec fn spec_resettable(st: E::Value) -> E::Value {
        st
    }

    fn into_resettable(self) -> (r: Self) {
        self
    }
}


impl<'a, E: DecodeFromBytes<'a> + ?Sized> CloneScanner for SaveBytesScanner<'a, E> {
    fn clone_scanner(&self) -> (r: Self) {
        Self(self.0)
    }
}

} // verus!
