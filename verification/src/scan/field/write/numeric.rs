//! Writing numeric fields to a destination of the caller's.
use vstd::prelude::*;

use core::marker::PhantomData;

use crate::scan::encoding::Encoding;
use crate::scan::error::{ScanErr, ScanError};
use crate::scan::field::write::restore::{RestoreLenOnReset, RestoreOnReset};
use crate::scan::field::{
    OnScanField, PushTarget, decode_field, extend_packed, spec_decode_field, spec_extend_packed,
    spec_extend_packed_field, spec_extend_packed_prefix,
};
use crate::scan::group::delimited::{GroupDelimitedImpl, GroupModel};
use crate::scan::group::stack::{GroupStack, StackModel};
use crate::scan::save_from::SaveFrom;
use crate::scan::{IntoResettableScanner, IntoScanOutput, ResettableScanner};
use crate::wire::numeric_field::NumericField;
use crate::wire::parse::{DelimitedView, LengthDelimitedImpl};

verus! {

/// Scanner that writes the value of a numeric field, decoded as `E`, to the
/// destination `D` each time the field is seen.
pub struct WriteNumeric<E, D>(D, PhantomData<E>);

impl<E: Encoding, D: SaveFrom<E::Repr>> WriteNumeric<E, D> {
    /// Writes to `destination`.
    pub fn new(destination: D) -> (r: Self)
        ensures
            r.state() == destination.model(),
    {
        Self(destination, PhantomData)
    }
}

impl<E: Encoding, D: SaveFrom<E::Repr>> IntoScanOutput for WriteNumeric<E, D> {
    type ScanOutput = ();
    type State = D::Model;

    closed spec fn state(&self) -> D::Model {
        self.0.model()
    }

    open spec fn output_matches(st: D::Model, out: ()) -> bool {
        true
    }

    fn into_scan_output(self) -> (r: ()) {
    }
}

impl<'a, E: Encoding, D: SaveFrom<E::Repr>> OnScanField<'a> for WriteNumeric<E, D> {
    open spec fn spec_field_numeric(st: D::Model, value: NumericField) -> Result<D::Model, ScanErr> {
        match spec_decode_field::<E>(value) {
            Ok(v) => Ok(D::spec_save(st, v)),
            Err(e) => Err(e),
        }
    }

    open spec fn spec_field_group(st: D::Model, g: GroupModel) -> Result<(D::Model, GroupModel), ScanErr> {
        Err(ScanError::WrongWireType)
    }

    open spec fn spec_field_delimited(st: D::Model, contents: DelimitedView, stack: StackModel) -> Result<
        (D::Model, StackModel),
        ScanErr,
    > {
        Err(ScanError::WrongWireType)
    }

    proof fn lemma_field_group_progress(st: D::Model, g: GroupModel) {
    }

    fn on_numeric(&mut self, value: NumericField) -> (r: Result<(), ScanErr>) {
        match decode_field::<E>(value) {
            Ok(v) => {
                self.0.save_from(v);
                Ok(())
            },
            Err(e) => Err(e),
        }
    }

    fn on_group<G: GroupStack>(
        &mut self,
        _group: &mut GroupDelimitedImpl<'a>,
        _group_stack: &mut G,
    ) -> (r: Result<(), ScanErr>) {
        Err(ScanError::WrongWireType)
    }

    fn on_length_delimited<G: GroupStack>(
        &mut self,
        _delimited: LengthDelimitedImpl<'a>,
        _group_stack: &mut G,
    ) -> (r: Result<(), ScanErr>) {
        Err(ScanError::WrongWireType)
    }
}

impl<'t, E: Encoding> IntoResettableScanner for WriteNumeric<E, &'t mut E::Repr> {
    type Resettable = WriteNumeric<E, RestoreOnReset<'t, E::Repr>>;

    open spec fn spec_resettable(st: E::Repr) -> (E::Repr, Option<E::Repr>) {
        (st, None)
    }

    fn into_resettable(self) -> (r: WriteNumeric<E, RestoreOnReset<'t, E::Repr>>) {
        WriteNumeric(RestoreOnReset::new(self.0), PhantomData)
    }
}

impl<'t, E: Encoding> ResettableScanner for WriteNumeric<E, RestoreOnReset<'t, E::Repr>> {
    open spec fn spec_reset(st: (E::Repr, Option<E::Repr>)) -> (E::Repr, Option<E::Repr>) {
        (
            match st.1 {
                Some(p) => p,
                None => st.0,
            },
            None,
        )
    }

    fn reset(&mut self) {
        self.0.reset();
    }
}

/// Scanner that appends every value of a repeated numeric field, decoded as
/// `E`, to the destination `D`, in the order they appear. Values may be
/// packed.
pub struct WriteRepeatedNumeric<E, D>(D, PhantomData<E>);

impl<E: Encoding, D: PushTarget<E::Repr>> WriteRepeatedNumeric<E, D> {
    /// Appends to `destination`.
    pub fn new(destination: D) -> (r: Self)
        ensures
            r.state() == destination.model(),
    {
        Self(destination, PhantomData)
    }
}

impl<E: Encoding, D: PushTarget<E::Repr>> IntoScanOutput for WriteRepeatedNumeric<E, D> {
    type ScanOutput = ();
    type State = D::Model;

    closed spec fn state(&self) -> D::Model {
        self.0.model()
    }

    open spec fn output_matches(st: D::Model, out: ()) -> bool {
        true
    }

    fn into_scan_output(self) -> (r: ()) {
    }
}

impl<'a, E: Encoding, D: PushTarget<E::Repr>> OnScanField<'a> for WriteRepeatedNumeric<E, D> {
    open spec fn spec_field_numeric(st: D::Model, value: NumericField) -> Result<D::Model, ScanErr> {
        match spec_decode_field::<E>(value) {
            Ok(v) => Ok(D::spec_push(st, v)),
            Err(e) => Err(e),
        }
    }

    open spec fn spec_field_group(st: D::Model, g: GroupModel) -> Result<(D::Model, GroupModel), ScanErr> {
        Err(ScanError::WrongWireType)
    }

    open spec fn spec_field_delimited(st: D::Model, contents: DelimitedView, stack: StackModel) -> Result<
        (D::Model, StackModel),
        ScanErr,
    > {
        match spec_extend_packed_field::<E, D>(st, contents) {
            Ok(m) => Ok((m, stack)),
            Err(e) => Err(e),
        }
    }

    proof fn lemma_field_group_progress(st: D::Model, g: GroupModel) {
    }

    fn on_numeric(&mut self, value: NumericField) -> (r: Result<(), ScanErr>) {
        match decode_field::<E>(value) {
            Ok(v) => {
                self.0.push_value(v);
                Ok(())
            },
            Err(e) => Err(e),
        }
    }

    fn on_group<G: GroupStack>(
        &mut self,
        _group: &mut GroupDelimitedImpl<'a>,
        _group_stack: &mut G,
    ) -> (r: Result<(), ScanErr>) {
        Err(ScanError::WrongWireType)
    }

    /// On an error, the values decoded before the failing one are kept.
    fn on_length_delimited<G: GroupStack>(
        &mut self,
        delimited: LengthDelimitedImpl<'a>,
        _group_stack: &mut G,
    ) -> (r: Result<(), ScanErr>)
        ensures
            r is Err ==> final(self).state() == spec_extend_packed_prefix::<E, D>(
                old(self).state(),
                delimited@.0,
            ),
    {
        extend_packed::<E, D>(&mut self.0, delimited)
    }
}

impl<'t, E: Encoding> IntoResettableScanner for WriteRepeatedNumeric<E, &'t mut Vec<E::Repr>> {
    type Resettable = WriteRepeatedNumeric<E, RestoreLenOnReset<'t, Vec<E::Repr>>>;

    open spec fn spec_resettable(st: Seq<E::Repr>) -> (Seq<E::Repr>, usize) {
        (st, st.len() as usize)
    }

    fn into_resettable(self) -> (r: WriteRepeatedNumeric<E, RestoreLenOnReset<'t, Vec<E::Repr>>>) {
        WriteRepeatedNumeric(RestoreLenOnReset::new(self.0), PhantomData)
    }
}

impl<'t, E: Encoding> ResettableScanner for WriteRepeatedNumeric<
    E,
    RestoreLenOnReset<'t, Vec<E::Repr>>,
> {
    open spec fn spec_reset(st: (Seq<E::Repr>, usize)) -> (Seq<E::Repr>, usize) {
        (
            if st.1 <= st.0.len() {
                st.0.take(st.1 as int)
            } else {
                st.0
            },
            st.1,
        )
    }

    fn reset(&mut self) {
        self.0.reset();
    }
}

} // verus!
