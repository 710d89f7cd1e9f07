//! Saving every value of a repeated field.
use vstd::prelude::*;

use crate::scan::encoding::Encoding;
use crate::scan::error::{ScanErr, ScanError};
use crate::scan::field::save::bytes::{DecodeFromBytes, decode_contents, spec_decode_contents};
use crate::scan::field::{
    OnScanField, copy_vec, decode_field, extend_packed, spec_decode_field, spec_extend_packed,
    spec_extend_packed_field, spec_extend_packed_prefix,
};
use crate::scan::group::delimited::{GroupDelimitedImpl, GroupModel};
use crate::scan::group::stack::{GroupStack, StackModel};
use crate::scan::{CloneScanner, IntoResettableScanner, IntoScanOutput, ResettableScanner};
use crate::wire::numeric_field::NumericField;
use crate::wire::parse::{DelimitedView, LengthDelimitedImpl};

verus! {

/// Scanner that keeps every value of a repeated numeric field, decoded as
/// `E`, in the order they appear. Values may be packed.
pub struct SaveRepeated<E: Encoding>(Vec<E::Repr>);

impl<E: Encoding> SaveRepeated<E> {
    /// A scanner with no values yet.
    pub fn new() -> (r: Self)
        ensures
            r.state() == Seq::<E::Repr>::empty(),
    {
        Self(Vec::new())
    }
}

impl<E: Encoding> IntoScanOutput for SaveRepeated<E> {
    type ScanOutput = Vec<E::Repr>;
    type State = Seq<E::Repr>;

    closed spec fn state(&self) -> Seq<E::Repr> {
        self.0@
    }

    open spec fn output_matches(st: Seq<E::Repr>, out: Vec<E::Repr>) -> bool {
        out@ == st
    }

    fn into_scan_output(self) -> (r: Vec<E::Repr>) {
        self.0
    }
}

impl<'a, E: Encoding> OnScanField<'a> for SaveRepeated<E> {
    open spec fn spec_field_numeric(st: Seq<E::Repr>, value: NumericField) -> Result<
        Seq<E::Repr>,
        ScanErr,
    > {
        match spec_decode_field::<E>(value) {
            Ok(v) => Ok(st.push(v)),
            Err(e) => Err(e),
        }
    }

    open spec fn spec_field_group(st: Seq<E::Repr>, g: GroupModel) -> Result<
        (Seq<E::Repr>, GroupModel),
        ScanErr,
    > {
        Err(ScanError::WrongWireType)
    }

    open spec fn spec_field_delimited(
        st: Seq<E::Repr>,
        contents: DelimitedView,
        stack: StackModel,
    ) -> Result<(Seq<E::Repr>, StackModel), ScanErr> {
        match spec_extend_packed_field::<E, Vec<E::Repr>>(st, contents) {
            Ok(s2) => Ok((s2, stack)),
            Err(e) => Err(e),
        }
    }

    proof fn lemma_field_group_progress(st: Seq<E::Repr>, g: GroupModel) {
    }

    fn on_numeric(&mut self, value: NumericField) -> (r: Result<(), ScanErr>) {
        match decode_field::<E>(value) {
            Ok(v) => {
                self.0.push(v);
                Ok(())
            },
            Err(e) => Err(e),
        }
    }

    fn on_group<G: GroupStack>(
        &mut self,
        _group: &mut GroupDelimitedImpl<'a>,
        _group_stack: &mut G,
    ) -> (r: Result<(), ScanErr>) {
        Err(ScanError::WrongWireType)
    }

    /// On an error, the values decoded before the failing one are kept.
    fn on_length_delimited<G: GroupStack>(
        &mut self,
        delimited: LengthDelimitedImpl<'a>,
        _group_stack: &mut G,
    ) -> (r: Result<(), ScanErr>)
        ensures
            r is Err ==> final(self).state() == spec_extend_packed_prefix::<E, Vec<E::Repr>>(
                old(self).state(),
                delimited@.0,
            ),
    {
        extend_packed::<E, Vec<E::Repr>>(&mut self.0, delimited)
    }
}

impl<E: Encoding> ResettableScanner for SaveRepeated<E> {
    open spec fn spec_reset(st: Seq<E::Repr>) -> Seq<E::Repr> {
        Seq::empty()
    }

    fn reset(&mut self) {
        self.0.clear();
    }
}

impl<E: Encoding> IntoResettableScanner for SaveRepeated<E> {
    type Resettable = Self;

    open spec fn spec_resettable(st: Seq<E::Repr>) -> Seq<E::Repr> {
        st
    }

    fn into_resettable(self) -> (r: Self) {
        self
    }
}

/// What the decoded values `ds` stand for, in order.
pub open spec fn values_of<'a, E: DecodeFromBytes<'a> + ?Sized>(ds: Seq<E::Decoded>) -> Seq<E::Value> {
    ds.map_values(|d: E::Decoded| E::value_of(d))
}

/// Scanner that keeps every value of a repeated `bytes` or `string` field,
/// in the order they appear.
pub struct SaveRepeatedBytes<'a, E: DecodeFromBytes<'a> + ?Sized>(Vec<E::Decoded>);

impl<'a, E: DecodeFromBytes<'a> + ?Sized> SaveRepeatedBytes<'a, E> {
    /// A scanner with no values yet.
    pub fn new() -> (r: Self)
        ensures
            r.state() == Seq::<E::Value>::empty(),
    {
        let r = Self(Vec::new());
        assert(r.state() =~= Seq::<E::Value>::empty());
        r
    }
}

impl<'a, E: DecodeFromBytes<'a> + ?Sized> IntoScanOutput for SaveRepeatedBytes<'a, E> {
    type ScanOutput = Vec<E::Decoded>;
    type State = Seq<E::Value>;

    closed spec fn state(&self) -> Seq<E::Value> {
        values_of::<E>(self.0@)
    }

    open spec fn output_matches(st: Seq<E::Value>, out: Vec<E::Decoded>) -> bool {
        values_of::<E>(out@) == st
    }

    fn into_scan_output(self) -> (r: Vec<E::Decoded>) {
        self.0
    }
}

impl<'a, E: DecodeFromBytes<'a> + ?Sized> OnScanField<'a> for SaveRepeatedBytes<'a, E> {
    open spec fn spec_field_numeric(st: Seq<E::Value>, value: NumericField) -> Result<
        Seq<E::Value>,
        ScanErr,
    > {
        Err(ScanError::WrongWireType)
    }

    open spec fn spec_field_group(st: Seq<E::Value>, g: GroupModel) -> Result<
        (Seq<E::Value>, GroupModel),
        ScanErr,
    > {
        Err(ScanError::WrongWireType)
    }

    open spec fn spec_field_delimited(
        st: Seq<E::Value>,
        contents: DelimitedView,
        stack: StackModel,
    ) -> Result<(Seq<E::Value>, StackModel), ScanErr> {
        match spec_decode_contents::<E>(contents) {
            Ok(v) => Ok((st.push(v), stack)),
            Err(e) => Err(e),
        }
    }

    proof fn lemma_field_group_progress(st: Seq<E::Value>, g: GroupModel) {
    }

    fn on_numeric(&mut self, _value: NumericField) -> (r: Result<(), ScanErr>) {
        Err(ScanError::WrongWireType)
    }

    fn on_group<G: GroupStack>(
        &mut self,
        _group: &mut GroupDelimitedImpl<'a>,
        _group_stack: &mut G,
    ) -> (r: Result<(), ScanErr>) {
        Err(ScanError::WrongWireType)
    }

    fn on_length_delimited<G: GroupStack>(
        &mut self,
        delimited: LengthDelimitedImpl<'a>,
        _group_stack: &mut G,
    ) -> (r: Result<(), ScanErr>) {
        match decode_contents::<E>(delimited) {
            Ok(d) => {
                self.0.push(d);
                assert(values_of::<E>(self.0@) =~= values_of::<E>(old(self).0@).push(E::value_of(d)));
                Ok(())
            },
            Err(e) => Err(e),
        }
    }
}

impl<'a, E: DecodeFromBytes<'a> + ?Sized> ResettableScanner for SaveRepeatedBytes<'a, E> {
    open spec fn spec_reset(st: Seq<E::Value>) -> Seq<E::Value> {
        Seq::empty()
    }

    fn reset(&mut self) {
        self.0.clear();
        assert(values_of::<E>(self.0@) =~= Seq::<E::Value>::empty());
    }
}

impl<'a, E: DecodeFromBytes<'a> + ?Sized> IntoResettableScanner for SaveRepeatedBytes<'a, E> {
    type Resettable = Self;

    open spec fn spec_resettable(st: Seq<E::Value>) -> Seq<E::Value> {
        st
    }

    fn into_resettable(self) -> (r: Self) {
        self
    }
}


impl<E: Encoding> CloneScanner for SaveRepeated<E> {
    fn clone_scanner(&self) -> (r: Self) {
        Self(copy_vec(&self.0))
    }
}

impl<'a, E: DecodeFromBytes<'a> + ?Sized> CloneScanner for SaveRepeatedBytes<'a, E> {
    fn clone_scanner(&self) -> (r: Self) {
        Self(copy_vec(&self.0))
    }
}

/// An occurrence of a repeated `bytes` or `string` field appends its value:
/// on success the values saved before it are kept, in order, and its decoded
/// value follows them; the group stack is untouched. It fails exactly when
/// its contents do not decode.
pub proof fn lemma_repeated_bytes_appends<'a, E: DecodeFromBytes<'a> + ?Sized>(
    st: Seq<E::Value>,
    c: DelimitedView,
    stack: StackModel,
)
    ensures
        match <SaveRepeatedBytes<'a, E> as OnScanField<'a>>::spec_field_delimited(st, c, stack) {
            Ok((st2, stack2)) => st2.len() == st.len() + 1 && st2.take(st.len() as int) == st
                && spec_decode_contents::<E>(c) == Ok::<E::Value, ScanErr>(st2.last()) && stack2
                == stack,
            Err(e) => spec_decode_contents::<E>(c) == Err::<E::Value, ScanErr>(e),
        },
{
    if let Ok(v) = spec_decode_contents::<E>(c) {
        assert(st.push(v).take(st.len() as int) =~= st);
    }
}

/// A value of a repeated numeric field appends: on success the values saved
/// before it are kept, in order, and the decoded value follows them.
pub proof fn lemma_repeated_numeric_appends<'a, E: Encoding>(st: Seq<E::Repr>, value: NumericField)
    ensures
        match <SaveRepeated<E> as OnScanField<'a>>::spec_field_numeric(st, value) {
            Ok(st2) => st2.len() == st.len() + 1 && st2.take(st.len() as int) == st
                && spec_decode_field::<E>(value) == Ok::<E::Repr, ScanErr>(st2.last()),
            Err(e) => spec_decode_field::<E>(value) == Err::<E::Repr, ScanErr>(e),
        },
{
    if let Ok(v) = spec_decode_field::<E>(value) {
        assert(st.push(v).take(st.len() as int) =~= st);
    }
}

/// Packed values of a repeated numeric field append: on success the values
/// saved before are kept, in order, followed by the values the contents hold
/// on their own; the group stack is untouched.
pub proof fn lemma_repeated_packed_appends<'a, E: Encoding>(
    st: Seq<E::Repr>,
    c: DelimitedView,
    stack: StackModel,
)
    ensures
        <SaveRepeated<E> as OnScanField<'a>>::spec_field_delimited(st, c, stack) matches Ok(
            (st2, stack2),
        ) ==> stack2 == stack && spec_extend_packed::<E, Vec<E::Repr>>(Seq::empty(), c.0) == Ok::<
            Seq<E::Repr>,
            ScanErr,
        >(st2.skip(st.len() as int)) && st2.take(st.len() as int) == st,
{
    crate::scan::field::lemma_extend_packed_appends::<E>(st, c.0);
    if let Ok(vs) = spec_extend_packed::<E, Vec<E::Repr>>(Seq::empty(), c.0) {
        assert((st + vs).skip(st.len() as int) =~= vs);
        assert((st + vs).take(st.len() as int) =~= st);
    }
}

} // verus!
