//! Scanners that keep the decoded values of a numeric field.
use vstd::prelude::*;

use crate::scan::encoding::Encoding;
use crate::scan::error::{ScanErr, ScanError};
use crate::scan::field::{
    OnScanField, copy_vec, decode_field, extend_packed, spec_decode_field, spec_extend_packed,
    spec_extend_packed_field, spec_extend_packed_prefix,
};
use crate::scan::group::delimited::{GroupDelimitedImpl, GroupModel};
use crate::scan::group::stack::{GroupStack, StackModel};
use crate::scan::{CloneScanner, IntoScanOutput, ResettableScanner};
use crate::wire::numeric_field::NumericField;
use crate::wire::parse::{DelimitedView, LengthDelimitedImpl};

verus! {

/// Scanner that keeps the last value of a numeric field, decoded as `E`, or
/// `None` if the field was not seen.
pub struct EmitScalar<E: Encoding>(Option<E::Repr>);

impl<E: Encoding> EmitScalar<E> {
    /// A scanner that has seen no value.
    pub fn new() -> (r: Self)
        ensures
            r.state() == None::<E::Repr>,
    {
        Self(None)
    }
}

impl<E: Encoding> IntoScanOutput for EmitScalar<E> {
    type ScanOutput = Option<E::Repr>;
    type State = Option<E::Repr>;

    closed spec fn state(&self) -> Option<E::Repr> {
        self.0
    }

    open spec fn output_matches(st: Option<E::Repr>, out: Option<E::Repr>) -> bool {
        out == st
    }

    fn into_scan_output(self) -> (r: Option<E::Repr>) {
        self.0
    }
}

impl<'a, E: Encoding> OnScanField<'a> for EmitScalar<E> {
    open spec fn spec_field_numeric(st: Option<E::Repr>, value: NumericField) -> Result<
        Option<E::Repr>,
        ScanErr,
    > {
        match spec_decode_field::<E>(value) {
            Ok(v) => Ok(Some(v)),
            Err(e) => Err(e),
        }
    }

    open spec fn spec_field_group(st: Option<E::Repr>, g: GroupModel) -> Result<
        (Option<E::Repr>, GroupModel),
        ScanErr,
    > {
        Err(ScanError::WrongWireType)
    }

    open spec fn spec_field_delimited(
        st: Option<E::Repr>,
        contents: DelimitedView,
        stack: StackModel,
    ) -> Result<(Option<E::Repr>, StackModel), ScanErr> {
        Err(ScanError::WrongWireType)
    }

    proof fn lemma_field_group_progress(st: Option<E::Repr>, g: GroupModel) {
    }

    fn on_numeric(&mut self, value: NumericField) -> (r: Result<(), ScanErr>) {
        match decode_field::<E>(value) {
            Ok(v) => {
                self.0 = Some(v);
                Ok(())
            },
            Err(e) => Err(e),
        }
    }

    fn on_group<G: GroupStack>(
        &mut self,
        _group: &mut GroupDelimitedImpl<'a>,
        _group_stack: &mut G,
    ) -> (r: Result<(), ScanErr>) {
        Err(ScanError::WrongWireType)
    }

    fn on_length_delimited<G: GroupStack>(
        &mut self,
        _delimited: LengthDelimitedImpl<'a>,
        _group_stack: &mut G,
    ) -> (r: Result<(), ScanErr>) {
        Err(ScanError::WrongWireType)
    }
}

impl<E: Encoding> ResettableScanner for EmitScalar<E> {
    open spec fn spec_reset(st: Option<E::Repr>) -> Option<E::Repr> {
        None
    }

    fn reset(&mut self) {
        self.0 = None;
    }
}

/// Scanner that keeps every value of a repeated numeric field, decoded as
/// `E`, in the order they appear. Values may be packed.
pub struct EmitRepeated<E: Encoding>(Vec<E::Repr>);

impl<E: Encoding> EmitRepeated<E> {
    /// A scanner that has seen no value.
    pub fn new() -> (r: Self)
        ensures
            r.state() == Seq::<E::Repr>::empty(),
    {
        Self(Vec::new())
    }
}

impl<E: Encoding> IntoScanOutput for EmitRepeated<E> {
    type ScanOutput = Vec<E::Repr>;
    type State = Seq<E::Repr>;

    closed spec fn state(&self) -> Seq<E::Repr> {
        self.0@
    }

    open spec fn output_matches(st: Seq<E::Repr>, out: Vec<E::Repr>) -> bool {
        out@ == st
    }

    fn into_scan_output(self) -> (r: Vec<E::Repr>) {
        self.0
    }
}

impl<'a, E: Encoding> OnScanField<'a> for EmitRepeated<E> {
    open spec fn spec_field_numeric(st: Seq<E::Repr>, value: NumericField) -> Result<
        Seq<E::Repr>,
        ScanErr,
    > {
        match spec_decode_field::<E>(value) {
            Ok(v) => Ok(st.push(v)),
            Err(e) => Err(e),
        }
    }

    open spec fn spec_field_group(st: Seq<E::Repr>, g: GroupModel) -> Result<
        (Seq<E::Repr>, GroupModel),
        ScanErr,
    > {
        Err(ScanError::WrongWireType)
    }

    open spec fn spec_field_delimited(
        st: Seq<E::Repr>,
        contents: DelimitedView,
        stack: StackModel,
    ) -> Result<(Seq<E::Repr>, StackModel), ScanErr> {
        match spec_extend_packed_field::<E, Vec<E::Repr>>(st, contents) {
            Ok(s2) => Ok((s2, stack)),
            Err(e) => Err(e),
        }
    }

    proof fn lemma_field_group_progress(st: Seq<E::Repr>, g: GroupModel) {
    }

    fn on_numeric(&mut self, value: NumericField) -> (r: Result<(), ScanErr>) {
        match decode_field::<E>(value) {
            Ok(v) => {
                self.0.push(v);
                Ok(())
            },
            Err(e) => Err(e),
        }
    }

    fn on_group<G: GroupStack>(
        &mut self,
        _group: &mut GroupDelimitedImpl<'a>,
        _group_stack: &mut G,
    ) -> (r: Result<(), ScanErr>) {
        Err(ScanError::WrongWireType)
    }

    /// On an error, the values decoded before the failing one are kept.
    fn on_length_delimited<G: GroupStack>(
        &mut self,
        delimited: LengthDelimitedImpl<'a>,
        _group_stack: &mut G,
    ) -> (r: Result<(), ScanErr>)
        ensures
            r is Err ==> final(self).state() == spec_extend_packed_prefix::<E, Vec<E::Repr>>(
                old(self).state(),
                delimited@.0,
            ),
    {
        extend_packed::<E, Vec<E::Repr>>(&mut self.0, delimited)
    }
}

impl<E: Encoding> ResettableScanner for EmitRepeated<E> {
    open spec fn spec_reset(st: Seq<E::Repr>) -> Seq<E::Repr> {
        Seq::empty()
    }

    fn reset(&mut self) {
        self.0.clear();
    }
}


impl<E: Encoding> CloneScanner for EmitScalar<E> {
    fn clone_scanner(&self) -> (r: Self) {
        Self(self.0)
    }
}

impl<E: Encoding> CloneScanner for EmitRepeated<E> {
    fn clone_scanner(&self) -> (r: Self) {
        Self(copy_vec(&self.0))
    }
}

} // verus!
