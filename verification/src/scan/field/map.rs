//! Protobuf map fields: repeated entries with the key as field 1 and the
//! value as field 2.
use vstd::prelude::*;

use core::convert::Infallible;
use core::marker::PhantomData;

use crate::scan::encoding::Encoding;
use crate::scan::error::ScanErr;
use crate::scan::field::{NoOp, OnScanField};
use crate::scan::group::delimited::{GroupDelimitedImpl, GroupModel};
use crate::scan::group::stack::{GroupStack, StackModel};
use crate::scan::{CloneScanner, IntoScanOutput, IntoScanner, MessageScanner, ScanCallbacks, ScanMessage};
use crate::wire::numeric_field::NumericField;
use crate::wire::parse::{DelimitedView, LengthDelimitedImpl};

verus! {

/// Marker type for a protobuf map field (the name `Map` belongs to the
/// specification language).
pub struct ProtoMap<K: ?Sized, V: ?Sized>(PhantomData<K>, PhantomData<V>, Infallible);

/// Valid key type for a map.
///
/// Per the protobuf documentation this can be any integral or string type. This
/// is implemented on the type representing the protobuf wire format, like
/// [`crate::scan::encoding::Varint`] or [`str`].
pub trait MapKey {}

impl<E: Encoding> MapKey for E {}

impl MapKey for str {}

/// Synthetic message type for a protobuf map entry.
///
/// Protobuf maps are encoded as repeated messages where the embedded message
/// type holds the key as field 1 and the value as field 2.
pub struct MapEntry<K: ?Sized, V: ?Sized>(Infallible, PhantomData<K>, PhantomData<V>);

/// Scanner for a [`MapEntry`]: the key goes to `SK`, the value to `SV`, and
/// other fields are ignored.
pub struct MapEntryScanner<K: ?Sized, V: ?Sized, SK, SV>(SK, SV, PhantomData<K>, PhantomData<V>);

impl<K: ?Sized, V: ?Sized, SK, SV> MapEntryScanner<K, V, SK, SV> {
    /// The key scanner.
    pub closed spec fn key_scanner(&self) -> SK {
        self.0
    }

    /// The value scanner.
    pub closed spec fn value_scanner(&self) -> SV {
        self.1
    }

    /// Scans keys with `key` and values with `value`.
    pub fn new(key: SK, value: SV) -> (r: Self)
        ensures
            r.key_scanner() == key,
            r.value_scanner() == value,
    {
        Self(key, value, PhantomData, PhantomData)
    }
}

impl<K: ?Sized, V: ?Sized, SK, SV> MapEntryScanner<K, V, SK, SV> {
    /// The key scanner and the value scanner.
    pub fn into_parts(self) -> (r: (SK, SV))
        ensures
            r.0 == self.key_scanner(),
            r.1 == self.value_scanner(),
    {
        (self.0, self.1)
    }
}

impl<K: ?Sized + MapKey, V: ?Sized> ScanMessage for MapEntry<K, V> {
    type ScannerBuilder = MapEntryScanner<K, V, NoOp, NoOp>;

    fn scanner() -> (r: MapEntryScanner<K, V, NoOp, NoOp>)
        ensures
            r.key_scanner() == NoOp,
            r.value_scanner() == NoOp,
    {
        MapEntryScanner::new(NoOp, NoOp)
    }
}

impl<K: MapKey + ?Sized, V: ?Sized, SK, SV> MessageScanner for MapEntryScanner<K, V, SK, SV> {
    type Message = MapEntry<K, V>;
}

impl<K: MapKey + ?Sized, V: ?Sized, SV> MapEntryScanner<K, V, NoOp, SV> {
    /// Scans the key with `key_scanner`.
    pub fn key<SK>(self, key_scanner: SK) -> (r: MapEntryScanner<K, V, SK, SV>)
        ensures
            r.key_scanner() == key_scanner,
            r.value_scanner() == self.value_scanner(),
    {
        MapEntryScanner::new(key_scanner, self.1)
    }
}

impl<K: MapKey + ?Sized, V: ?Sized, SK> MapEntryScanner<K, V, SK, NoOp> {
    /// Scans the value with `value_scanner`.
    pub fn value<SV>(self, value_scanner: SV) -> (r: MapEntryScanner<K, V, SK, SV>)
        ensures
            r.key_scanner() == self.key_scanner(),
            r.value_scanner() == value_scanner,
    {
        MapEntryScanner::new(self.0, value_scanner)
    }
}

impl<
    'a,
    K: MapKey + ?Sized,
    V: ?Sized,
    SK: IntoScanner<'a, K>,
    SV: IntoScanner<'a, V>,
> IntoScanner<'a, MapEntry<K, V>> for MapEntryScanner<K, V, SK, SV> {
    type Scanner = MapEntryScanner<K, V, SK::Scanner, SV::Scanner>;

    open spec fn spec_scanner(&self) -> (
        <SK::Scanner as IntoScanOutput>::State,
        <SV::Scanner as IntoScanOutput>::State,
    ) {
        (self.key_scanner().spec_scanner(), self.value_scanner().spec_scanner())
    }

    fn into_scanner(self) -> (r: MapEntryScanner<K, V, SK::Scanner, SV::Scanner>) {
        MapEntryScanner::new(self.0.into_scanner(), self.1.into_scanner())
    }
}

impl<K: ?Sized, V: ?Sized, SK: IntoScanOutput, SV: IntoScanOutput> IntoScanOutput for MapEntryScanner<
    K,
    V,
    SK,
    SV,
> {
    type ScanOutput = (SK::ScanOutput, SV::ScanOutput);
    type State = (SK::State, SV::State);

    open spec fn state(&self) -> (SK::State, SV::State) {
        (self.key_scanner().state(), self.value_scanner().state())
    }

    open spec fn output_matches(st: (SK::State, SV::State), out: (SK::ScanOutput, SV::ScanOutput)) -> bool {
        SK::output_matches(st.0, out.0) && SV::output_matches(st.1, out.1)
    }

    fn into_scan_output(self) -> (r: (SK::ScanOutput, SV::ScanOutput)) {
        (self.0.into_scan_output(), self.1.into_scan_output())
    }
}

impl<'a, K: ?Sized, V: ?Sized, SK: OnScanField<'a>, SV: OnScanField<'a>> ScanCallbacks<
    'a,
> for MapEntryScanner<K, V, SK, SV> {
    open spec fn spec_on_numeric(st: (SK::State, SV::State), field: u32, value: NumericField) -> Result<
        (SK::State, SV::State),
        ScanErr,
    > {
        if field == 1 {
            match SK::spec_field_numeric(st.0, value) {
                Ok(k) => Ok((k, st.1)),
                Err(e) => Err(e),
            }
        } else if field == 2 {
            match SV::spec_field_numeric(st.1, value) {
                Ok(v) => Ok((st.0, v)),
                Err(e) => Err(e),
            }
        } else {
            Ok(st)
        }
    }

    open spec fn spec_on_group(st: (SK::State, SV::State), field: u32, g: GroupModel) -> Result<
        ((SK::State, SV::State), GroupModel),
        ScanErr,
    > {
        if field == 1 {
            match SK::spec_field_group(st.0, g) {
                Ok((k, g2)) => Ok(((k, st.1), g2)),
                Err(e) => Err(e),
            }
        } else if field == 2 {
            match SV::spec_field_group(st.1, g) {
                Ok((v, g2)) => Ok(((st.0, v), g2)),
                Err(e) => Err(e),
            }
        } else {
            Ok((st, g))
        }
    }

    open spec fn spec_on_length_delimited(
        st: (SK::State, SV::State),
        field: u32,
        contents: DelimitedView,
        stack: StackModel,
    ) -> Result<((SK::State, SV::State), StackModel), ScanErr> {
        if field == 1 {
            match SK::spec_field_delimited(st.0, contents, stack) {
                Ok((k, s2)) => Ok(((k, st.1), s2)),
                Err(e) => Err(e),
            }
        } else if field == 2 {
            match SV::spec_field_delimited(st.1, contents, stack) {
                Ok((v, s2)) => Ok(((st.0, v), s2)),
                Err(e) => Err(e),
            }
        } else {
            Ok((st, stack))
        }
    }

    proof fn lemma_on_group_progress(st: (SK::State, SV::State), field: u32, g: GroupModel) {
        SK::lemma_field_group_progress(st.0, g);
        SV::lemma_field_group_progress(st.1, g);
    }

    fn on_numeric(&mut self, field: u32, value: NumericField) -> (r: Result<(), ScanErr>) {
        if field == 1 {
            self.0.on_numeric(value)
        } else if field == 2 {
            self.1.on_numeric(value)
        } else {
            Ok(())
        }
    }

    fn on_group<G: GroupStack>(
        &mut self,
        field: u32,
        group: &mut GroupDelimitedImpl<'a>,
        group_stack: &mut G,
    ) -> (r: Result<(), ScanErr>) {
        if field == 1 {
            self.0.on_group(group, group_stack)
        } else if field == 2 {
            self.1.on_group(group, group_stack)
        } else {
            Ok(())
        }
    }

    fn on_length_delimited<G: GroupStack>(
        &mut self,
        field: u32,
        delimited: LengthDelimitedImpl<'a>,
        group_stack: &mut G,
    ) -> (r: Result<(), ScanErr>) {
        if field == 1 {
            self.0.on_length_delimited(delimited, group_stack)
        } else if field == 2 {
            self.1.on_length_delimited(delimited, group_stack)
        } else {
            Ok(())
        }
    }
}


impl<K: ?Sized, V: ?Sized, SK: CloneScanner, SV: CloneScanner> CloneScanner for MapEntryScanner<
    K,
    V,
    SK,
    SV,
> {
    fn clone_scanner(&self) -> (r: Self) {
        MapEntryScanner::new(self.0.clone_scanner(), self.1.clone_scanner())
    }
}

} // verus!
