//! Scanners that implement conventional protobuf behavior.
//!
//! The [`Save`] unit type is the entry point for this module. It can be passed
//! as an `IntoScanner<T>` impl for all scalar types `T`.
use vstd::prelude::*;

pub mod bytes;
pub mod hash_map;
pub mod map;
pub mod numeric;
pub mod optional;
pub mod repeated;

pub use bytes::{DecodeFromBytes, SaveBytesScanner};
pub use hash_map::{HashMapKey, SaveMap, SaveMapScanner};
pub use map::{
    SaveBytes, SaveMapKey, SaveMapValue, SaveMapValueScanner, SkipUtf8Validation,
};
pub use numeric::SaveNumeric;
pub use optional::SaveOptional;
pub use repeated::{SaveRepeated, SaveRepeatedBytes};

use core::marker::PhantomData;

use crate::scan::IntoScanner;
use crate::scan::encoding::Encoding;
use crate::scan::field::Repeated;

verus! {

/// Produces the scanner that [`Save`] produces for protobuf type `S`, for a
/// field of protobuf type `T`.
pub struct SaveAs<S: ?Sized, T: ?Sized>(PhantomData<S>, PhantomData<T>);

/// Produces scanners that save the read value as the scan output.
///
/// The scanners provided by `Save` implement standard protobuf message
/// semantics (last one wins for scalar fields, values accumulate for repeated
/// fields).
#[derive(Copy, Clone)]
pub struct Save;

impl Save {
    /// Saves a `string` field as its bytes, without checking that they are
    /// UTF-8.
    pub fn as_bytes() -> (r: SaveAs<[u8], str>) {
        SaveAs(PhantomData, PhantomData)
    }
}

impl<'a, S: ?Sized, T: ?Sized> IntoScanner<'a, T> for SaveAs<S, T> where Save: IntoScanner<'a, S> {
    type Scanner = <Save as IntoScanner<'a, S>>::Scanner;

    open spec fn spec_scanner(
        &self,
    ) -> <<Save as IntoScanner<'a, S>>::Scanner as crate::scan::IntoScanOutput>::State {
        <Save as IntoScanner<'a, S>>::spec_scanner(&Save)
    }

    fn into_scanner(self) -> (r: <Save as IntoScanner<'a, S>>::Scanner) {
        <Save as IntoScanner<'a, S>>::into_scanner(Save)
    }
}

impl<'a, E: Encoding> IntoScanner<'a, E> for Save {
    type Scanner = SaveNumeric<E>;

    open spec fn spec_scanner(&self) -> E::Repr {
        E::spec_default()
    }

    fn into_scanner(self) -> (r: SaveNumeric<E>) {
        SaveNumeric::new()
    }
}

impl<'a, E: Encoding> IntoScanner<'a, Repeated<E>> for Save {
    type Scanner = SaveRepeated<E>;

    open spec fn spec_scanner(&self) -> Seq<E::Repr> {
        Seq::empty()
    }

    fn into_scanner(self) -> (r: SaveRepeated<E>) {
        SaveRepeated::new()
    }
}

impl<'a> IntoScanner<'a, str> for Save {
    type Scanner = SaveBytesScanner<'a, str>;

    open spec fn spec_scanner(&self) -> Seq<char> {
        Seq::empty()
    }

    fn into_scanner(self) -> (r: SaveBytesScanner<'a, str>) {
        SaveBytesScanner::new()
    }
}

impl<'a> IntoScanner<'a, [u8]> for Save {
    type Scanner = SaveBytesScanner<'a, [u8]>;

    open spec fn spec_scanner(&self) -> Seq<u8> {
        Seq::empty()
    }

    fn into_scanner(self) -> (r: SaveBytesScanner<'a, [u8]>) {
        SaveBytesScanner::new()
    }
}

impl<'a> IntoScanner<'a, Repeated<str>> for Save {
    type Scanner = SaveRepeatedBytes<'a, str>;

    open spec fn spec_scanner(&self) -> Seq<Seq<char>> {
        Seq::empty()
    }

    fn into_scanner(self) -> (r: SaveRepeatedBytes<'a, str>) {
        SaveRepeatedBytes::new()
    }
}

impl<'a> IntoScanner<'a, Repeated<[u8]>> for Save {
    type Scanner = SaveRepeatedBytes<'a, [u8]>;

    open spec fn spec_scanner(&self) -> Seq<Seq<u8>> {
        Seq::empty()
    }

    fn into_scanner(self) -> (r: SaveRepeatedBytes<'a, [u8]>) {
        SaveRepeatedBytes::new()
    }
}

impl<'a, N> IntoScanner<'a, Option<N>> for Save where Save: IntoScanner<'a, N> {
    type Scanner = SaveOptional<<Save as IntoScanner<'a, N>>::Scanner>;

    open spec fn spec_scanner(
        &self,
    ) -> (<<Save as IntoScanner<'a, N>>::Scanner as crate::scan::IntoScanOutput>::State, bool) {
        (<Save as IntoScanner<'a, N>>::spec_scanner(&Save), false)
    }

    fn into_scanner(self) -> (r: SaveOptional<<Save as IntoScanner<'a, N>>::Scanner>) {
        SaveOptional::new(<Save as IntoScanner<'a, N>>::into_scanner(Save))
    }
}

} // verus!
