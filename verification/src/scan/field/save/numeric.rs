//! Saving a scalar numeric field.
use vstd::prelude::*;

use crate::scan::encoding::Encoding;
use crate::scan::error::{ScanErr, ScanError};
use crate::scan::field::{OnScanField, decode_field, spec_decode_field};
use crate::scan::group::delimited::{GroupDelimitedImpl, GroupModel};
use crate::scan::group::stack::{GroupStack, StackModel};
use crate::scan::{CloneScanner, IntoResettableScanner, IntoScanOutput, ResettableScanner};
use crate::wire::numeric_field::NumericField;
use crate::wire::parse::{DelimitedView, LengthDelimitedImpl};

verus! {

/// Scanner that keeps the last value of a numeric field (zero if there is
/// none), decoded as `E`.
pub struct SaveNumeric<E: Encoding>(E::Repr);

impl<E: Encoding> SaveNumeric<E> {
    /// A scanner holding the default value.
    pub fn new() -> (r: Self)
        ensures
            r.state() == E::spec_default(),
    {
        Self(E::default_repr())
    }
}

impl<E: Encoding> IntoScanOutput for SaveNumeric<E> {
    type ScanOutput = E::Repr;
    type State = E::Repr;

    closed spec fn state(&self) -> E::Repr {
        self.0
    }

    open spec fn output_matches(st: E::Repr, out: E::Repr) -> bool {
        out == st
    }

    fn into_scan_output(self) -> (r: E::Repr) {
        self.0
    }
}

impl<'a, E: Encoding> OnScanField<'a> for SaveNumeric<E> {
    open spec fn spec_field_numeric(st: E::Repr, value: NumericField) -> Result<E::Repr, ScanErr> {
        spec_decode_field::<E>(value)
    }

    open spec fn spec_field_group(st: E::Repr, g: GroupModel) -> Result<(E::Repr, GroupModel), ScanErr> {
        Err(ScanError::WrongWireType)
    }

    open spec fn spec_field_delimited(st: E::Repr, contents: DelimitedView, stack: StackModel) -> Result<
        (E::Repr, StackModel),
        ScanErr,
    > {
        Err(ScanError::WrongWireType)
    }

    proof fn lemma_field_group_progress(st: E::Repr, g: GroupModel) {
    }

    fn on_numeric(&mut self, value: NumericField) -> (r: Result<(), ScanErr>) {
        match decode_field::<E>(value) {
            Ok(v) => {
                self.0 = v;
                Ok(())
            },
            Err(e) => Err(e),
        }
    }

    fn on_group<G: GroupStack>(
        &mut self,
        _group: &mut GroupDelimitedImpl<'a>,
        _group_stack: &mut G,
    ) -> (r: Result<(), ScanErr>) {
        Err(ScanError::WrongWireType)
    }

    fn on_length_delimited<G: GroupStack>(
        &mut self,
        _delimited: LengthDelimitedImpl<'a>,
        _group_stack: &mut G,
    ) -> (r: Result<(), ScanErr>) {
        Err(ScanError::WrongWireType)
    }
}

impl<E: Encoding> ResettableScanner for SaveNumeric<E> {
    open spec fn spec_reset(st: E::Repr) -> E::Repr {
        E::spec_default()
    }

    fn reset(&mut self) {
        self.0 = E::default_repr();
    }
}

impl<E: Encoding> IntoResettableScanner for SaveNumeric<E> {
    type Resettable = Self;

    open spec fn spec_resettable(st: E::Repr) -> E::Repr {
        st
    }

    fn into_resettable(self) -> (r: Self) {
        self
    }
}


impl<E: Encoding> CloneScanner for SaveNumeric<E> {
    fn clone_scanner(&self) -> (r: Self) {
        Self(self.0)
    }
}

/// The last value wins: what a numeric field leaves saved is its own decoded
/// value, whatever was saved before.
pub proof fn lemma_save_numeric_last_wins<'a, E: Encoding>(
    st1: E::Repr,
    st2: E::Repr,
    value: NumericField,
)
    ensures
        <SaveNumeric<E> as OnScanField<'a>>::spec_field_numeric(st1, value)
            == <SaveNumeric<E> as OnScanField<'a>>::spec_field_numeric(st2, value),
        <SaveNumeric<E> as OnScanField<'a>>::spec_field_numeric(st1, value) == spec_decode_field::<E>(
            value,
        ),
{
}

} // verus!
