//! Saving the value stored under one key of a map field.
use vstd::prelude::*;

use core::marker::PhantomData;

use crate::scan::delimited::{ScanDelimited, spec_scan_delimited};
use crate::scan::encoding::Encoding;
use crate::scan::error::{ScanErr, ScanError};
use crate::scan::field::map::{MapEntryScanner, ProtoMap};
use crate::scan::field::save::bytes::SaveBytesScanner;
use crate::scan::field::{OnScanField, Save};
use crate::scan::group::delimited::{GroupDelimitedImpl, GroupModel};
use crate::scan::group::stack::{GroupStack, StackModel};
use crate::scan::{CloneScanner, IntoScanOutput, IntoScanner, ScanCallbacks};
use crate::wire::numeric_field::NumericField;
use crate::wire::parse::{DelimitedView, LengthDelimitedImpl};

verus! {

/// Saves a single value from a map.
///
/// Produces a scanner that saves only the scanned value for the given key
/// from the map (if present; the last entry with that key wins).
pub struct SaveMapValue<K, SV>(K, SV);

impl Save {
    /// Saves a single value from a map.
    ///
    /// Returns a scanner builder that saves only the scanned value for the
    /// given key from the map.
    pub fn map_value<K, SV>(key: K, value_scanner: SV) -> (r: SaveMapValue<K, SV>)
        ensures
            r.needle() == key,
            r.value_builder() == value_scanner,
    {
        SaveMapValue(key, value_scanner)
    }
}

impl<K, SV> SaveMapValue<K, SV> {
    /// The key looked for.
    pub closed spec fn needle(&self) -> K {
        self.0
    }

    /// The builder of the value scanner.
    pub closed spec fn value_builder(&self) -> SV {
        self.1
    }

    /// Compares keys as bytes, without checking that the keys of the map
    /// are UTF-8.
    pub fn skip_keys_utf8_validation(self) -> (r: SaveMapValue<SkipUtf8Validation<K>, SV>)
        ensures
            r.needle().inner() == self.needle(),
            r.value_builder() == self.value_builder(),
    {
        SaveMapValue(SkipUtf8Validation(self.0), self.1)
    }
}

/// A string key that is compared with the map's keys as bytes.
pub struct SkipUtf8Validation<K>(K);

impl<K> SkipUtf8Validation<K> {
    /// The key.
    pub closed spec fn inner(&self) -> K {
        self.0
    }
}

/// Saves a `string` field as bytes, without checking that they are UTF-8.
#[derive(Copy, Clone)]
pub struct SaveBytes;

impl<'a> IntoScanner<'a, str> for SaveBytes {
    type Scanner = SaveBytesScanner<'a, [u8]>;

    open spec fn spec_scanner(&self) -> Seq<u8> {
        Seq::empty()
    }

    fn into_scanner(self) -> (r: SaveBytesScanner<'a, [u8]>) {
        SaveBytesScanner::new()
    }
}

/// The type of a key a map is searched for, for maps with keys of protobuf
/// type `K`: the scanner that reads the keys, and how a key read compares
/// with it.
pub trait SaveMapKey<'a, K: ?Sized> {
    /// The builder of the key scanner.
    type SaveScanner: IntoScanner<'a, K> + Copy;
    /// What the key stands for.
    type Needle;

    /// What this key stands for.
    spec fn needle(&self) -> Self::Needle;

    /// Whether a key scanner that ended in state `key` read this key.
    spec fn spec_matches(
        n: Self::Needle,
        key: <<Self::SaveScanner as IntoScanner<'a, K>>::Scanner as IntoScanOutput>::State,
    ) -> bool;

    /// The builder of the key scanner.
    spec fn spec_save_scanner() -> Self::SaveScanner;

    /// The builder of the key scanner.
    fn save_scanner() -> (r: Self::SaveScanner)
        ensures
            r == Self::spec_save_scanner(),
    ;

    /// Whether the key scanner's output `key` is this key.
    fn matches(
        &self,
        key: <<Self::SaveScanner as IntoScanner<'a, K>>::Scanner as IntoScanOutput>::ScanOutput,
    ) -> (r: bool)
        ensures
            forall|st|
                <<Self::SaveScanner as IntoScanner<'a, K>>::Scanner as IntoScanOutput>::output_matches(st, key)
                    ==> r == Self::spec_matches(self.needle(), st),
    ;
}

impl<'a, E: Encoding> SaveMapKey<'a, E> for E::Repr {
    type SaveScanner = Save;
    type Needle = E::Repr;

    open spec fn needle(&self) -> E::Repr {
        *self
    }

    open spec fn spec_matches(n: E::Repr, key: E::Repr) -> bool {
        n == key
    }

    open spec fn spec_save_scanner() -> Save {
        Save
    }

    fn save_scanner() -> (r: Save) {
        Save
    }

    fn matches(&self, key: E::Repr) -> (r: bool) {
        E::same_value(*self, key)
    }
}

/// Whether two byte strings are equal.
fn bytes_equal(a: &[u8], b: &[u8]) -> (r: bool)
    ensures
        r == (a@ == b@),
{
    if a.len() != b.len() {
        return false;
    }
    let mut i: usize = 0;
    while i < a.len()
        invariant
            a@.len() == b@.len(),
            i <= a@.len(),
            a@.take(i as int) == b@.take(i as int),
        decreases a.len() - i,
    {
        if a[i] != b[i] {
            assert(a@[i as int] != b@[i as int]);
            return false;
        }
        assert(a@.take(i + 1) =~= a@.take(i as int).push(a@[i as int]));
        assert(b@.take(i + 1) =~= b@.take(i as int).push(b@[i as int]));
        i = i + 1;
    }
    assert(a@.take(a@.len() as int) =~= a@);
    assert(b@.take(b@.len() as int) =~= b@);
    true
}

/// Whether two strings have the same characters.
fn str_equal(a: &str, b: &str) -> (r: bool)
    ensures
        r == (a@ == b@),
{
    proof {
        vstd::utf8::encode_utf8_decode_utf8(a@);
        vstd::utf8::encode_utf8_decode_utf8(b@);
    }
    bytes_equal(a.as_bytes(), b.as_bytes())
}

impl<'a, 'b> SaveMapKey<'a, str> for &'b str {
    type SaveScanner = Save;
    type Needle = Seq<char>;

    open spec fn needle(&self) -> Seq<char> {
        (*self)@
    }

    open spec fn spec_matches(n: Seq<char>, key: Seq<char>) -> bool {
        n == key
    }

    open spec fn spec_save_scanner() -> Save {
        Save
    }

    fn save_scanner() -> (r: Save) {
        Save
    }

    fn matches(&self, key: &'a str) -> (r: bool) {
        str_equal(*self, key)
    }
}

impl<'a, 'b> SaveMapKey<'a, str> for SkipUtf8Validation<&'b str> {
    type SaveScanner = SaveBytes;
    type Needle = Seq<u8>;

    open spec fn needle(&self) -> Seq<u8> {
        vstd::utf8::encode_utf8(self.inner()@)
    }

    open spec fn spec_matches(n: Seq<u8>, key: Seq<u8>) -> bool {
        n == key
    }

    open spec fn spec_save_scanner() -> SaveBytes {
        SaveBytes
    }

    fn save_scanner() -> (r: SaveBytes) {
        SaveBytes
    }

    fn matches(&self, key: &'a [u8]) -> (r: bool) {
        bytes_equal(self.0.as_bytes(), key)
    }
}

impl<'a> SaveMapKey<'a, str> for String {
    type SaveScanner = Save;
    type Needle = Seq<char>;

    open spec fn needle(&self) -> Seq<char> {
        self@
    }

    open spec fn spec_matches(n: Seq<char>, key: Seq<char>) -> bool {
        n == key
    }

    open spec fn spec_save_scanner() -> Save {
        Save
    }

    fn save_scanner() -> (r: Save) {
        Save
    }

    fn matches(&self, key: &'a str) -> (r: bool) {
        str_equal(self.as_str(), key)
    }
}

impl<'a> SaveMapKey<'a, str> for SkipUtf8Validation<String> {
    type SaveScanner = SaveBytes;
    type Needle = Seq<u8>;

    open spec fn needle(&self) -> Seq<u8> {
        vstd::utf8::encode_utf8(self.inner()@)
    }

    open spec fn spec_matches(n: Seq<u8>, key: Seq<u8>) -> bool {
        n == key
    }

    open spec fn spec_save_scanner() -> SaveBytes {
        SaveBytes
    }

    fn save_scanner() -> (r: SaveBytes) {
        SaveBytes
    }

    fn matches(&self, key: &'a [u8]) -> (r: bool) {
        bytes_equal(self.0.as_str().as_bytes(), key)
    }
}

/// Scanner for a map field that keeps the value scanner of the last entry
/// whose key is the needle.
pub struct SaveMapValueScanner<
    'a,
    K: ?Sized,
    V: ?Sized,
    Q: SaveMapKey<'a, K>,
    SV: IntoScanner<'a, V>,
> {
    needle: Q,
    fresh: SV::Scanner,
    found: Option<SV::Scanner>,
    _types: PhantomData<(Box<K>, Box<V>)>,
}

/// The state of the key scanner that every entry starts with.
pub open spec fn key_init<'a, K: ?Sized, Q: SaveMapKey<'a, K>>() -> <<Q::SaveScanner as IntoScanner<
    'a,
    K,
>>::Scanner as IntoScanOutput>::State {
    Q::spec_save_scanner().spec_scanner()
}

impl<'a, K: ?Sized, V: ?Sized, Q: SaveMapKey<'a, K>, SV: IntoScanner<'a, V>> IntoScanOutput for SaveMapValueScanner<
    'a,
    K,
    V,
    Q,
    SV,
> {
    type ScanOutput = Option<<SV::Scanner as IntoScanOutput>::ScanOutput>;
    type State = (
        Q::Needle,
        <SV::Scanner as IntoScanOutput>::State,
        Option<<SV::Scanner as IntoScanOutput>::State>,
    );

    closed spec fn state(&self) -> Self::State {
        (
            self.needle.needle(),
            self.fresh.state(),
            match self.found {
                Some(s) => Some(s.state()),
                None => None,
            },
        )
    }

    open spec fn output_matches(st: Self::State, out: Self::ScanOutput) -> bool {
        match (st.2, out) {
            (None, None) => true,
            (Some(s), Some(o)) => <SV::Scanner as IntoScanOutput>::output_matches(s, o),
            _ => false,
        }
    }

    fn into_scan_output(self) -> (r: Self::ScanOutput) {
        match self.found {
            Some(s) => Some(s.into_scan_output()),
            None => None,
        }
    }
}

impl<'a, K: ?Sized, V: ?Sized, Q: SaveMapKey<'a, K>, SV: IntoScanner<'a, V>> OnScanField<
    'a,
> for SaveMapValueScanner<'a, K, V, Q, SV> where
    <Q::SaveScanner as IntoScanner<'a, K>>::Scanner: OnScanField<'a>,
    SV::Scanner: OnScanField<'a> + CloneScanner,
 {
    open spec fn spec_field_numeric(st: Self::State, value: NumericField) -> Result<Self::State, ScanErr> {
        Err(ScanError::WrongWireType)
    }

    open spec fn spec_field_group(st: Self::State, g: GroupModel) -> Result<(Self::State, GroupModel), ScanErr> {
        Err(ScanError::WrongWireType)
    }

    open spec fn spec_field_delimited(st: Self::State, contents: DelimitedView, stack: StackModel) -> Result<
        (Self::State, StackModel),
        ScanErr,
    > {
        match spec_scan_delimited::<
            MapEntryScanner<K, V, <Q::SaveScanner as IntoScanner<'a, K>>::Scanner, SV::Scanner>,
        >((key_init::<K, Q>(), st.1), contents, stack) {
            Ok(((ks, vs), stack2)) => Ok(
                (
                    (st.0, st.1, if Q::spec_matches(st.0, ks) {
                        Some(vs)
                    } else {
                        st.2
                    }),
                    stack2,
                ),
            ),
            Err(e) => Err(e),
        }
    }

    proof fn lemma_field_group_progress(st: Self::State, g: GroupModel) {
    }

    fn on_numeric(&mut self, _value: NumericField) -> (r: Result<(), ScanErr>) {
        Err(ScanError::WrongWireType)
    }

    fn on_group<G: GroupStack>(
        &mut self,
        _group: &mut GroupDelimitedImpl<'a>,
        _group_stack: &mut G,
    ) -> (r: Result<(), ScanErr>) {
        Err(ScanError::WrongWireType)
    }

    /// An entry that fails to scan leaves the saved entries as they were.
    fn on_length_delimited<G: GroupStack>(
        &mut self,
        delimited: LengthDelimitedImpl<'a>,
        group_stack: &mut G,
    ) -> (r: Result<(), ScanErr>)
        ensures
            r is Err ==> final(self).state() == old(self).state(),
    {
        let key_scanner = Q::save_scanner().into_scanner();
        let value_scanner = self.fresh.clone_scanner();
        let mut entry: MapEntryScanner<K, V, _, _> = MapEntryScanner::new(key_scanner, value_scanner);
        match delimited.scan_into(&mut entry, group_stack) {
            Ok(()) => {},
            Err(e) => return Err(e),
        }
        let (ks, vs) = entry.into_parts();
        let key = ks.into_scan_output();
        if self.needle.matches(key) {
            self.found = Some(vs);
        }
        Ok(())
    }
}

impl<'a, K: ?Sized, V: ?Sized, Q: SaveMapKey<'a, K>, SV: IntoScanner<'a, V>> IntoScanner<
    'a,
    ProtoMap<K, V>,
> for SaveMapValue<Q, SV> {
    type Scanner = SaveMapValueScanner<'a, K, V, Q, SV>;

    open spec fn spec_scanner(&self) -> (
        Q::Needle,
        <SV::Scanner as IntoScanOutput>::State,
        Option<<SV::Scanner as IntoScanOutput>::State>,
    ) {
        (self.needle().needle(), self.value_builder().spec_scanner(), None)
    }

    fn into_scanner(self) -> (r: SaveMapValueScanner<'a, K, V, Q, SV>) {
        SaveMapValueScanner {
            needle: self.0,
            fresh: self.1.into_scanner(),
            found: None,
            _types: PhantomData,
        }
    }
}

/// Scanning a map entry leaves the needle and the fresh value scanner as
/// they were; the value kept is the scan of the entry alone from the fresh
/// key and value scanners when the entry's key is the needle, and the value
/// kept before otherwise. A failure is that scan's.
pub proof fn lemma_map_value_from_fresh_scanners<
    'a,
    K: ?Sized,
    V: ?Sized,
    Q: SaveMapKey<'a, K>,
    SV: IntoScanner<'a, V>,
>(
    st: (Q::Needle, <SV::Scanner as IntoScanOutput>::State, Option<<SV::Scanner as IntoScanOutput>::State>),
    c: DelimitedView,
    stack: StackModel,
) where
    <Q::SaveScanner as IntoScanner<'a, K>>::Scanner: OnScanField<'a>,
    SV::Scanner: OnScanField<'a> + CloneScanner,

    ensures
        match <SaveMapValueScanner<'a, K, V, Q, SV> as OnScanField<'a>>::spec_field_delimited(
            st,
            c,
            stack,
        ) {
            Ok((st2, stack2)) => st2.0 == st.0 && st2.1 == st.1 && exists|
                ks: <<Q::SaveScanner as IntoScanner<'a, K>>::Scanner as IntoScanOutput>::State,
                vs: <SV::Scanner as IntoScanOutput>::State,
            |
                spec_scan_delimited::<
                    MapEntryScanner<K, V, <Q::SaveScanner as IntoScanner<'a, K>>::Scanner, SV::Scanner>,
                >((key_init::<K, Q>(), st.1), c, stack) == Ok::<
                    (
                        (
                            <<Q::SaveScanner as IntoScanner<'a, K>>::Scanner as IntoScanOutput>::State,
                            <SV::Scanner as IntoScanOutput>::State,
                        ),
                        StackModel,
                    ),
                    ScanErr,
                >(((ks, vs), stack2)) && st2.2 == if Q::spec_matches(st.0, ks) {
                    Some(vs)
                } else {
                    st.2
                },
            Err(e) => spec_scan_delimited::<
                MapEntryScanner<K, V, <Q::SaveScanner as IntoScanner<'a, K>>::Scanner, SV::Scanner>,
            >((key_init::<K, Q>(), st.1), c, stack) matches Err(e2) && e2 == e,
        },
{
    let scanned = spec_scan_delimited::<
        MapEntryScanner<K, V, <Q::SaveScanner as IntoScanner<'a, K>>::Scanner, SV::Scanner>,
    >((key_init::<K, Q>(), st.1), c, stack);
    if let Ok(((ks, vs), stack2)) = scanned {
        assert(scanned == Ok::<
            (
                (
                    <<Q::SaveScanner as IntoScanner<'a, K>>::Scanner as IntoScanOutput>::State,
                    <SV::Scanner as IntoScanOutput>::State,
                ),
                StackModel,
            ),
            ScanErr,
        >(((ks, vs), stack2)));
    }
}

} // verus!
