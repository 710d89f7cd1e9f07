//! Writing `bytes` and `string` fields to a destination of the caller's.
use vstd::prelude::*;

use core::marker::PhantomData;

use crate::scan::error::{ScanErr, ScanError};
use crate::scan::field::OnScanField;
use crate::scan::field::save::bytes::{DecodeFromBytes, decode_contents, spec_decode_contents};
use crate::scan::field::save::repeated::values_of;
use crate::scan::field::write::restore::{RestoreLenOnReset, RestoreOnReset};
use crate::scan::group::delimited::{GroupDelimitedImpl, GroupModel};
use crate::scan::group::stack::{GroupStack, StackModel};
use crate::scan::save_from::SaveFrom;
use crate::scan::{IntoResettableScanner, IntoScanOutput, ResettableScanner};
use crate::wire::numeric_field::NumericField;
use crate::wire::parse::{DelimitedView, LengthDelimitedImpl};

verus! {

/// A destination that decoded `bytes` or `string` values are written to.
///
/// `Model` is what the destination holds as seen in a specification, in
/// terms of what the decoded values stand for.
pub trait WriteDecoded<'a, E: DecodeFromBytes<'a> + ?Sized> {
    /// The abstract contents.
    type Model;

    /// The contents.
    spec fn model(&self) -> Self::Model;

    /// The contents after writing a value that stands for `v`.
    spec fn spec_write(m: Self::Model, v: E::Value) -> Self::Model;

    /// Writes `d`.
    fn write_decoded(&mut self, d: E::Decoded)
        ensures
            Self::model(&*final(self)) == Self::spec_write(Self::model(&*old(self)), E::value_of(d)),
    ;
}

impl<'a, 't, E: DecodeFromBytes<'a> + ?Sized> WriteDecoded<'a, E> for &'t mut E::Decoded {
    type Model = E::Value;

    open spec fn model(&self) -> E::Value {
        E::value_of(**self)
    }

    open spec fn spec_write(m: E::Value, v: E::Value) -> E::Value {
        v
    }

    fn write_decoded(&mut self, d: E::Decoded) {
        **self = d;
    }
}

impl<'a, 't, E: DecodeFromBytes<'a> + ?Sized> WriteDecoded<'a, E> for RestoreOnReset<'t, E::Decoded> {
    type Model = (E::Value, Option<E::Value>);

    open spec fn model(&self) -> (E::Value, Option<E::Value>) {
        (
            E::value_of(self.current()),
            match self.previous() {
                Some(p) => Some(E::value_of(p)),
                None => None,
            },
        )
    }

    open spec fn spec_write(m: (E::Value, Option<E::Value>), v: E::Value) -> (
        E::Value,
        Option<E::Value>,
    ) {
        (v, Some(m.0))
    }

    fn write_decoded(&mut self, d: E::Decoded) {
        self.save_from(d);
    }
}

/// A collection that decoded `bytes` or `string` values are appended to.
pub trait PushDecoded<'a, E: DecodeFromBytes<'a> + ?Sized> {
    /// The abstract contents.
    type Model;

    /// The contents.
    spec fn model(&self) -> Self::Model;

    /// The contents after appending a value that stands for `v`.
    spec fn spec_push(m: Self::Model, v: E::Value) -> Self::Model;

    /// Appends `d`.
    fn push_decoded(&mut self, d: E::Decoded)
        ensures
            Self::model(&*final(self)) == Self::spec_push(Self::model(&*old(self)), E::value_of(d)),
    ;
}

impl<'a, 't, E: DecodeFromBytes<'a> + ?Sized> PushDecoded<'a, E> for &'t mut Vec<E::Decoded> {
    type Model = Seq<E::Value>;

    open spec fn model(&self) -> Seq<E::Value> {
        values_of::<E>((**self)@)
    }

    open spec fn spec_push(m: Seq<E::Value>, v: E::Value) -> Seq<E::Value> {
        m.push(v)
    }

    fn push_decoded(&mut self, d: E::Decoded) {
        let ghost before = (**self)@;
        (**self).push(d);
        assert(values_of::<E>((**self)@) =~= values_of::<E>(before).push(E::value_of(d)));
    }
}

impl<'a, 't, E: DecodeFromBytes<'a> + ?Sized> PushDecoded<'a, E> for RestoreLenOnReset<
    't,
    Vec<E::Decoded>,
> {
    type Model = (Seq<E::Value>, usize);

    open spec fn model(&self) -> (Seq<E::Value>, usize) {
        (values_of::<E>(self.items()), self.saved_len())
    }

    open spec fn spec_push(m: (Seq<E::Value>, usize), v: E::Value) -> (Seq<E::Value>, usize) {
        (m.0.push(v), m.1)
    }

    fn push_decoded(&mut self, d: E::Decoded) {
        let ghost before = self.items();
        crate::scan::field::PushTarget::push_value(self, d);
        assert(values_of::<E>(self.items()) =~= values_of::<E>(before).push(E::value_of(d)));
    }
}

/// Scanner that writes the value of a `bytes` or `string` field to the
/// destination `D` each time the field is seen.
pub struct WriteBytes<'a, E: ?Sized, D>(D, PhantomData<&'a E>);

impl<'a, E: DecodeFromBytes<'a> + ?Sized, D: WriteDecoded<'a, E>> WriteBytes<'a, E, D> {
    /// Writes to `to`.
    pub fn new(to: D) -> (r: Self)
        ensures
            r.state() == to.model(),
    {
        Self(to, PhantomData)
    }
}

impl<'a, E: DecodeFromBytes<'a> + ?Sized, D: WriteDecoded<'a, E>> IntoScanOutput for WriteBytes<
    'a,
    E,
    D,
> {
    type ScanOutput = ();
    type State = D::Model;

    closed spec fn state(&self) -> D::Model {
        self.0.model()
    }

    open spec fn output_matches(st: D::Model, out: ()) -> bool {
        true
    }

    fn into_scan_output(self) -> (r: ()) {
    }
}

impl<'a, E: DecodeFromBytes<'a> + ?Sized, D: WriteDecoded<'a, E>> OnScanField<'a> for WriteBytes<
    'a,
    E,
    D,
> {
    open spec fn spec_field_numeric(st: D::Model, value: NumericField) -> Result<D::Model, ScanErr> {
        Err(ScanError::WrongWireType)
    }

    open spec fn spec_field_group(st: D::Model, g: GroupModel) -> Result<(D::Model, GroupModel), ScanErr> {
        Err(ScanError::WrongWireType)
    }

    open spec fn spec_field_delimited(st: D::Model, contents: DelimitedView, stack: StackModel) -> Result<
        (D::Model, StackModel),
        ScanErr,
    > {
        match spec_decode_contents::<E>(contents) {
            Ok(v) => Ok((D::spec_write(st, v), stack)),
            Err(e) => Err(e),
        }
    }

    proof fn lemma_field_group_progress(st: D::Model, g: GroupModel) {
    }

    fn on_numeric(&mut self, _value: NumericField) -> (r: Result<(), ScanErr>) {
        Err(ScanError::WrongWireType)
    }

    fn on_group<G: GroupStack>(
        &mut self,
        _group: &mut GroupDelimitedImpl<'a>,
        _group_stack: &mut G,
    ) -> (r: Result<(), ScanErr>) {
        Err(ScanError::WrongWireType)
    }

    fn on_length_delimited<G: GroupStack>(
        &mut self,
        delimited: LengthDelimitedImpl<'a>,
        _group_stack: &mut G,
    ) -> (r: Result<(), ScanErr>) {
        match decode_contents::<E>(delimited) {
            Ok(d) => {
                self.0.write_decoded(d);
                Ok(())
            },
            Err(e) => Err(e),
        }
    }
}

impl<'a, 't, E: DecodeFromBytes<'a> + ?Sized> IntoResettableScanner for WriteBytes<
    'a,
    E,
    &'t mut E::Decoded,
> {
    type Resettable = WriteBytes<'a, E, RestoreOnReset<'t, E::Decoded>>;

    open spec fn spec_resettable(st: E::Value) -> (E::Value, Option<E::Value>) {
        (st, None)
    }

    fn into_resettable(self) -> (r: WriteBytes<'a, E, RestoreOnReset<'t, E::Decoded>>) {
        WriteBytes(RestoreOnReset::new(self.0), PhantomData)
    }
}

impl<'a, 't, E: DecodeFromBytes<'a> + ?Sized> ResettableScanner for WriteBytes<
    'a,
    E,
    RestoreOnReset<'t, E::Decoded>,
> {
    open spec fn spec_reset(st: (E::Value, Option<E::Value>)) -> (E::Value, Option<E::Value>) {
        (
            match st.1 {
                Some(p) => p,
                None => st.0,
            },
            None,
        )
    }

    fn reset(&mut self) {
        self.0.reset();
    }
}

/// Scanner that appends every value of a repeated `bytes` or `string` field
/// to the destination `D`, in the order they appear.
pub struct WriteRepeatedBytes<'a, E: ?Sized, D>(D, PhantomData<&'a E>);

impl<'a, E: DecodeFromBytes<'a> + ?Sized, D: PushDecoded<'a, E>> WriteRepeatedBytes<'a, E, D> {
    /// Appends to `to`.
    pub fn new(to: D) -> (r: Self)
        ensures
            r.state() == to.model(),
    {
        Self(to, PhantomData)
    }
}

impl<'a, E: DecodeFromBytes<'a> + ?Sized, D: PushDecoded<'a, E>> IntoScanOutput for WriteRepeatedBytes<
    'a,
    E,
    D,
> {
    type ScanOutput = ();
    type State = D::Model;

    closed spec fn state(&self) -> D::Model {
        self.0.model()
    }

    open spec fn output_matches(st: D::Model, out: ()) -> bool {
        true
    }

    fn into_scan_output(self) -> (r: ()) {
    }
}

impl<'a, E: DecodeFromBytes<'a> + ?Sized, D: PushDecoded<'a, E>> OnScanField<'a> for WriteRepeatedBytes<
    'a,
    E,
    D,
> {
    open spec fn spec_field_numeric(st: D::Model, value: NumericField) -> Result<D::Model, ScanErr> {
        Err(ScanError::WrongWireType)
    }

    open spec fn spec_field_group(st: D::Model, g: GroupModel) -> Result<(D::Model, GroupModel), ScanErr> {
        Err(ScanError::WrongWireType)
    }

    open spec fn spec_field_delimited(st: D::Model, contents: DelimitedView, stack: StackModel) -> Result<
        (D::Model, StackModel),
        ScanErr,
    > {
        match spec_decode_contents::<E>(contents) {
            Ok(v) => Ok((D::spec_push(st, v), stack)),
            Err(e) => Err(e),
        }
    }

    proof fn lemma_field_group_progress(st: D::Model, g: GroupModel) {
    }

    fn on_numeric(&mut self, _value: NumericField) -> (r: Result<(), ScanErr>) {
        Err(ScanError::WrongWireType)
    }

    fn on_group<G: GroupStack>(
        &mut self,
        _group: &mut GroupDelimitedImpl<'a>,
        _group_stack: &mut G,
    ) -> (r: Result<(), ScanErr>) {
        Err(ScanError::WrongWireType)
    }

    fn on_length_delimited<G: GroupStack>(
        &mut self,
        delimited: LengthDelimitedImpl<'a>,
        _group_stack: &mut G,
    ) -> (r: Result<(), ScanErr>) {
        match decode_contents::<E>(delimited) {
            Ok(d) => {
                self.0.push_decoded(d);
                Ok(())
            },
            Err(e) => Err(e),
        }
    }
}

impl<'a, 't, E: DecodeFromBytes<'a> + ?Sized> IntoResettableScanner for WriteRepeatedBytes<
    'a,
    E,
    &'t mut Vec<E::Decoded>,
> {
    type Resettable = WriteRepeatedBytes<'a, E, RestoreLenOnReset<'t, Vec<E::Decoded>>>;

    open spec fn spec_resettable(st: Seq<E::Value>) -> (Seq<E::Value>, usize) {
        (st, st.len() as usize)
    }

    fn into_resettable(self) -> (r: WriteRepeatedBytes<'a, E, RestoreLenOnReset<'t, Vec<E::Decoded>>>) {
        WriteRepeatedBytes(RestoreLenOnReset::new(self.0), PhantomData)
    }
}

impl<'a, 't, E: DecodeFromBytes<'a> + ?Sized> ResettableScanner for WriteRepeatedBytes<
    'a,
    E,
    RestoreLenOnReset<'t, Vec<E::Decoded>>,
> {
    open spec fn spec_reset(st: (Seq<E::Value>, usize)) -> (Seq<E::Value>, usize) {
        (
            if st.1 <= st.0.len() {
                st.0.take(st.1 as int)
            } else {
                st.0
            },
            st.1,
        )
    }

    fn reset(&mut self) {
        let ghost before = self.0.items();
        self.0.reset();
        assert(values_of::<E>(self.0.items()) =~= (if self.0.saved_len() <= values_of::<E>(before).len() {
            values_of::<E>(before).take(self.0.saved_len() as int)
        } else {
            values_of::<E>(before)
        }));
    }
}

} // verus!
