//! Saving a whole map field into a [`HashMap`].
use vstd::prelude::*;

use core::hash::Hash;
use core::marker::PhantomData;
use std::collections::HashMap;

use crate::scan::delimited::{ScanDelimited, spec_scan_delimited};
use crate::scan::encoding::Encoding;
use crate::scan::error::{ScanErr, ScanError};
use crate::scan::field::map::{MapEntryScanner, MapKey, ProtoMap};
use crate::scan::field::save::bytes::SaveBytesScanner;
use crate::scan::field::save::numeric::SaveNumeric;
use crate::scan::field::{OnScanField, Save};
use crate::scan::group::delimited::{GroupDelimitedImpl, GroupModel};
use crate::scan::group::stack::{GroupStack, StackModel};
use crate::scan::{
    CloneScanner, IntoResettableScanner, IntoScanOutput, IntoScanner, ResettableScanner,
};
use crate::wire::numeric_field::NumericField;
use crate::wire::parse::{DelimitedView, LengthDelimitedImpl};

verus! {

broadcast use vstd::std_specs::hash::group_hash_axioms;

/// A map key type whose keys can be saved as the keys of a [`HashMap`]: the
/// scanner that reads a key, and the key that a scanner state stands for.
pub trait HashMapKey<'a>: MapKey {
    /// The saved key.
    type Key: Eq + Hash;
    /// The scanner that reads the key of an entry.
    type KeyScanner: OnScanField<'a> + IntoScanOutput<ScanOutput = Self::Key>;

    /// The state of a fresh key scanner.
    spec fn spec_key_scanner() -> <Self::KeyScanner as IntoScanOutput>::State;

    /// A fresh key scanner.
    fn key_scanner() -> (r: Self::KeyScanner)
        ensures
            r.state() == Self::spec_key_scanner(),
    ;

    /// Whether [`HashMap`]'s model of its keys holds for these keys: then
    /// the map's contents are stated exactly.
    spec fn keys_modelled() -> bool;

    /// The key that a key scanner in state `st` produces.
    spec fn key_of(st: <Self::KeyScanner as IntoScanOutput>::State) -> Self::Key;

    /// Where the keys are modelled, a key scanner's output is `key_of` its
    /// state.
    proof fn lemma_key_of(st: <Self::KeyScanner as IntoScanOutput>::State, out: Self::Key)
        requires
            Self::keys_modelled(),
            <Self::KeyScanner as IntoScanOutput>::output_matches(st, out),
        ensures
            out == Self::key_of(st),
            vstd::std_specs::hash::obeys_key_model::<Self::Key>(),
    ;
}

impl<'a, E: Encoding> HashMapKey<'a> for E where E::Repr: Eq + Hash {
    type Key = E::Repr;
    type KeyScanner = SaveNumeric<E>;

    open spec fn spec_key_scanner() -> E::Repr {
        E::spec_default()
    }

    fn key_scanner() -> (r: SaveNumeric<E>) {
        SaveNumeric::new()
    }

    open spec fn keys_modelled() -> bool {
        vstd::std_specs::hash::obeys_key_model::<E::Repr>()
    }

    open spec fn key_of(st: E::Repr) -> E::Repr {
        st
    }

    proof fn lemma_key_of(st: E::Repr, out: E::Repr) {
    }
}

impl<'a> HashMapKey<'a> for str {
    type Key = &'a str;
    type KeyScanner = SaveBytesScanner<'a, str>;

    open spec fn spec_key_scanner() -> Seq<char> {
        Seq::empty()
    }

    fn key_scanner() -> (r: SaveBytesScanner<'a, str>) {
        SaveBytesScanner::new()
    }

    /// `&str` keys are modelled where they are told apart by their
    /// characters alone.
    open spec fn keys_modelled() -> bool {
        &&& vstd::std_specs::hash::obeys_key_model::<&'a str>()
        &&& forall|x: &'a str, y: &'a str| #[trigger] x@ == #[trigger] y@ ==> x == y
    }

    open spec fn key_of(st: Seq<char>) -> &'a str {
        choose|s: &'a str| s@ == st
    }

    proof fn lemma_key_of(st: Seq<char>, out: &'a str) {
        let c = choose|s: &'a str| s@ == st;
        assert(out@ == st);
        assert(c@ == st);
    }
}

/// Saves map keys and the output of a provided value scanner.
///
/// Produces a scanner whose output is a [`HashMap`] from the keys of the map
/// to the values (the last entry for a key wins).
pub struct SaveMap<V>(V);

impl<V> SaveMap<V> {
    /// Saves each key with the output of scanning its value with a copy of
    /// the scanner that `value_scanner` makes.
    pub fn with_value(value_scanner: V) -> (r: Self)
        ensures
            r.value_builder() == value_scanner,
    {
        Self(value_scanner)
    }

    /// The builder of the value scanners.
    pub closed spec fn value_builder(&self) -> V {
        self.0
    }
}

impl Save {
    /// Saves a whole map field: each key with the result of scanning its
    /// value with a copy of the scanner that `value_scanner` makes.
    pub fn with_value<V>(value_scanner: V) -> (r: SaveMap<V>)
        ensures
            r.value_builder() == value_scanner,
    {
        SaveMap::with_value(value_scanner)
    }
}

/// The output of the value scanners that `SV` makes for values of protobuf
/// type `V`.
pub type ValueOutput<'a, V, SV> = <<SV as IntoScanner<'a, V>>::Scanner as IntoScanOutput>::ScanOutput;

/// The state of the value scanners that `SV` makes for values of protobuf
/// type `V`.
pub type ValueState<'a, V, SV> = <<SV as IntoScanner<'a, V>>::Scanner as IntoScanOutput>::State;

/// Scanner for a map field that saves every entry in a [`HashMap`].
pub struct SaveMapScanner<'a, K: HashMapKey<'a> + ?Sized, V: ?Sized, SV: IntoScanner<'a, V>> {
    output: HashMap<K::Key, ValueOutput<'a, V, SV>>,
    fresh: SV::Scanner,
    entries: Ghost<Map<K::Key, ValueState<'a, V, SV>>>,
    _value: PhantomData<Box<V>>,
}

/// Whether `out` holds exactly the keys of `entries`, each with the output of
/// a value scanner in the state that `entries` records for that key.
pub open spec fn map_matches<'a, K: HashMapKey<'a> + ?Sized, V: ?Sized, SV: IntoScanner<'a, V>>(
    entries: Map<K::Key, ValueState<'a, V, SV>>,
    out: Map<K::Key, ValueOutput<'a, V, SV>>,
) -> bool {
    &&& out.dom() == entries.dom()
    &&& forall|k: K::Key|
        #[trigger] entries.contains_key(k) ==> <SV::Scanner as IntoScanOutput>::output_matches(
            entries[k],
            out[k],
        )
}

impl<'a, K: HashMapKey<'a> + ?Sized, V: ?Sized, SV: IntoScanner<'a, V>> SaveMapScanner<'a, K, V, SV> {
    /// The saved map holds exactly `entries` (where the keys are modelled).
    #[verifier::type_invariant]
    closed spec fn tracks_entries(&self) -> bool {
        K::keys_modelled() ==> map_matches::<K, V, SV>(self.entries@, self.output@)
    }

    /// An empty map, with each value scanned by a copy of `fresh`.
    fn empty(fresh: SV::Scanner) -> (r: Self)
        ensures
            r.state() == (Map::<K::Key, ValueState<'a, V, SV>>::empty(), fresh.state()),
    {
        let output = HashMap::new();
        assert(output@.dom() =~= Map::<K::Key, ValueState<'a, V, SV>>::empty().dom());
        SaveMapScanner { output, fresh, entries: Ghost(Map::empty()), _value: PhantomData }
    }
}

impl<'a, K: HashMapKey<'a> + ?Sized, V: ?Sized, SV: IntoScanner<'a, V>> IntoScanOutput for SaveMapScanner<
    'a,
    K,
    V,
    SV,
> {
    type ScanOutput = HashMap<K::Key, ValueOutput<'a, V, SV>>;
    /// The entries saved so far, by key, as value scanner states, and the
    /// state of the fresh value scanner that each entry's value starts from.
    type State = (Map<K::Key, ValueState<'a, V, SV>>, ValueState<'a, V, SV>);

    closed spec fn state(&self) -> Self::State {
        (self.entries@, self.fresh.state())
    }

    open spec fn output_matches(st: Self::State, out: Self::ScanOutput) -> bool {
        K::keys_modelled() ==> map_matches::<K, V, SV>(st.0, out@)
    }

    fn into_scan_output(self) -> (r: Self::ScanOutput) {
        proof {
            use_type_invariant(&self);
        }
        self.output
    }
}

impl<'a, K: HashMapKey<'a> + ?Sized, V: ?Sized, SV: IntoScanner<'a, V>> OnScanField<'a> for SaveMapScanner<
    'a,
    K,
    V,
    SV,
> where SV::Scanner: OnScanField<'a> + CloneScanner {
    open spec fn spec_field_numeric(st: Self::State, value: NumericField) -> Result<Self::State, ScanErr> {
        Err(ScanError::WrongWireType)
    }

    open spec fn spec_field_group(st: Self::State, g: GroupModel) -> Result<(Self::State, GroupModel), ScanErr> {
        Err(ScanError::WrongWireType)
    }

    open spec fn spec_field_delimited(st: Self::State, contents: DelimitedView, stack: StackModel) -> Result<
        (Self::State, StackModel),
        ScanErr,
    > {
        match spec_scan_delimited::<MapEntryScanner<K, V, K::KeyScanner, SV::Scanner>>(
            (K::spec_key_scanner(), st.1),
            contents,
            stack,
        ) {
            Ok(((ks, vs), stack2)) => Ok(((st.0.insert(K::key_of(ks), vs), st.1), stack2)),
            Err(e) => Err(e),
        }
    }

    proof fn lemma_field_group_progress(st: Self::State, g: GroupModel) {
    }

    fn on_numeric(&mut self, _value: NumericField) -> (r: Result<(), ScanErr>) {
        Err(ScanError::WrongWireType)
    }

    fn on_group<G: GroupStack>(
        &mut self,
        _group: &mut GroupDelimitedImpl<'a>,
        _group_stack: &mut G,
    ) -> (r: Result<(), ScanErr>) {
        Err(ScanError::WrongWireType)
    }

    /// An entry that fails to scan leaves the saved entries as they were.
    fn on_length_delimited<G: GroupStack>(
        &mut self,
        delimited: LengthDelimitedImpl<'a>,
        group_stack: &mut G,
    ) -> (r: Result<(), ScanErr>)
        ensures
            r is Err ==> final(self).state() == old(self).state(),
    {
        let key_scanner = K::key_scanner();
        let value_scanner = self.fresh.clone_scanner();
        let mut entry: MapEntryScanner<K, V, K::KeyScanner, SV::Scanner> = MapEntryScanner::new(
            key_scanner,
            value_scanner,
        );
        match delimited.scan_into(&mut entry, group_stack) {
            Ok(()) => {},
            Err(e) => return Err(e),
        }
        let (ks, vs) = entry.into_parts();
        let ghost kst = ks.state();
        let ghost vst = vs.state();
        let key = ks.into_scan_output();
        let value = vs.into_scan_output();
        proof {
            if K::keys_modelled() {
                K::lemma_key_of(kst, key);
            }
        }
        let mut taken = SaveMapScanner::empty(self.fresh.clone_scanner());
        core::mem::swap(self, &mut taken);
        proof {
            use_type_invariant(&taken);
        }
        let SaveMapScanner { mut output, fresh, entries, _value } = taken;
        output.insert(key, value);
        let entries = Ghost(entries@.insert(K::key_of(kst), vst));
        proof {
            if K::keys_modelled() {
                assert(output@.dom() =~= entries@.dom());
            }
        }
        *self = SaveMapScanner { output, fresh, entries, _value };
        Ok(())
    }
}

impl<'a, K: HashMapKey<'a> + ?Sized, V: ?Sized, SV: IntoScanner<'a, V>> ResettableScanner for SaveMapScanner<
    'a,
    K,
    V,
    SV,
> where SV::Scanner: CloneScanner {
    open spec fn spec_reset(st: Self::State) -> Self::State {
        (Map::empty(), st.1)
    }

    fn reset(&mut self) {
        let mut emptied = SaveMapScanner::empty(self.fresh.clone_scanner());
        core::mem::swap(self, &mut emptied);
    }
}

impl<'a, K: HashMapKey<'a> + ?Sized, V: ?Sized, SV: IntoScanner<'a, V>> IntoResettableScanner for SaveMapScanner<
    'a,
    K,
    V,
    SV,
> where SV::Scanner: CloneScanner {
    type Resettable = Self;

    open spec fn spec_resettable(st: Self::State) -> Self::State {
        (Map::empty(), st.1)
    }

    fn into_resettable(self) -> (r: Self) {
        SaveMapScanner::empty(self.fresh)
    }
}

impl<'a, K: HashMapKey<'a> + ?Sized, V: ?Sized, SV: IntoScanner<'a, V>> IntoScanner<'a, ProtoMap<K, V>> for SaveMap<
    SV,
> {
    type Scanner = SaveMapScanner<'a, K, V, SV>;

    open spec fn spec_scanner(&self) -> (Map<K::Key, ValueState<'a, V, SV>>, ValueState<'a, V, SV>) {
        (Map::empty(), self.value_builder().spec_scanner())
    }

    fn into_scanner(self) -> (r: SaveMapScanner<'a, K, V, SV>) {
        SaveMapScanner::empty(self.0.into_scanner())
    }
}

impl<'a, K: HashMapKey<'a> + ?Sized, V: ?Sized> IntoScanner<'a, ProtoMap<K, V>> for Save where
    Save: IntoScanner<'a, V>,
 {
    type Scanner = SaveMapScanner<'a, K, V, Save>;

    open spec fn spec_scanner(&self) -> (Map<K::Key, ValueState<'a, V, Save>>, ValueState<'a, V, Save>) {
        (Map::empty(), <Save as IntoScanner<'a, V>>::spec_scanner(&Save))
    }

    fn into_scanner(self) -> (r: SaveMapScanner<'a, K, V, Save>) {
        SaveMapScanner::empty(<Save as IntoScanner<'a, V>>::into_scanner(Save))
    }
}

/// Scanning a map entry leaves the fresh value scanner as it was, and saves
/// under the entry's key the scan of the entry alone from the fresh key and
/// value scanners, whatever entries came before; the other keys keep their
/// values. A failure is that scan's.
pub proof fn lemma_map_entry_from_fresh_scanners<
    'a,
    K: HashMapKey<'a> + ?Sized,
    V: ?Sized,
    SV: IntoScanner<'a, V>,
>(
    st: (Map<K::Key, ValueState<'a, V, SV>>, ValueState<'a, V, SV>),
    c: DelimitedView,
    stack: StackModel,
) where SV::Scanner: OnScanField<'a> + CloneScanner
    ensures
        match <SaveMapScanner<'a, K, V, SV> as OnScanField<'a>>::spec_field_delimited(st, c, stack) {
            Ok((st2, stack2)) => st2.1 == st.1 && exists|
                ks: <K::KeyScanner as IntoScanOutput>::State,
                vs: ValueState<'a, V, SV>,
            |
                spec_scan_delimited::<MapEntryScanner<K, V, K::KeyScanner, SV::Scanner>>(
                    (K::spec_key_scanner(), st.1),
                    c,
                    stack,
                ) == Ok::<
                    ((<K::KeyScanner as IntoScanOutput>::State, ValueState<'a, V, SV>), StackModel),
                    ScanErr,
                >(((ks, vs), stack2)) && st2.0[K::key_of(ks)] == vs
                    && st2.0.dom() == st.0.dom().insert(K::key_of(ks)) && forall|k: K::Key|
                    k != K::key_of(ks) && #[trigger] st.0.contains_key(k) ==> st2.0[k] == st.0[k],
            Err(e) => spec_scan_delimited::<MapEntryScanner<K, V, K::KeyScanner, SV::Scanner>>(
                (K::spec_key_scanner(), st.1),
                c,
                stack,
            ) matches Err(e2) && e2 == e,
        },
{
}

} // verus!
