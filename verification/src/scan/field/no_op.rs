//! A scanner that ignores everything.
use vstd::prelude::*;

use crate::scan::error::ScanErr;
use crate::scan::field::OnScanField;
use crate::scan::group::delimited::{GroupDelimitedImpl, GroupModel};
use crate::scan::group::stack::{GroupStack, StackModel};
use crate::scan::{
    CloneScanner, IntoResettableScanner, IntoScanOutput, IntoScanner, ResettableScanner, ScanCallbacks,
};
use crate::wire::numeric_field::NumericField;
use crate::wire::parse::{DelimitedView, LengthDelimitedImpl};

verus! {

/// Scanner that does nothing and always succeeds.
#[derive(Copy, Clone, Default)]
pub struct NoOp;

impl IntoScanOutput for NoOp {
    type ScanOutput = ();
    type State = ();

    open spec fn state(&self) -> () {
        ()
    }

    open spec fn output_matches(st: (), out: ()) -> bool {
        true
    }

    fn into_scan_output(self) -> (r: ()) {
    }
}

impl<'a> OnScanField<'a> for NoOp {
    open spec fn spec_field_numeric(st: (), value: NumericField) -> Result<(), ScanErr> {
        Ok(())
    }

    open spec fn spec_field_group(st: (), g: GroupModel) -> Result<((), GroupModel), ScanErr> {
        Ok(((), g))
    }

    open spec fn spec_field_delimited(st: (), contents: DelimitedView, stack: StackModel) -> Result<
        ((), StackModel),
        ScanErr,
    > {
        Ok(((), stack))
    }

    proof fn lemma_field_group_progress(st: (), g: GroupModel) {
    }

    fn on_numeric(&mut self, _value: NumericField) -> (r: Result<(), ScanErr>) {
        Ok(())
    }

    fn on_group<G: GroupStack>(
        &mut self,
        _group: &mut GroupDelimitedImpl<'a>,
        _group_stack: &mut G,
    ) -> (r: Result<(), ScanErr>) {
        Ok(())
    }

    fn on_length_delimited<G: GroupStack>(
        &mut self,
        _delimited: LengthDelimitedImpl<'a>,
        _group_stack: &mut G,
    ) -> (r: Result<(), ScanErr>) {
        Ok(())
    }
}

impl<'a> ScanCallbacks<'a> for NoOp {
    open spec fn spec_on_numeric(st: (), field: u32, value: NumericField) -> Result<(), ScanErr> {
        Ok(())
    }

    open spec fn spec_on_group(st: (), field: u32, g: GroupModel) -> Result<((), GroupModel), ScanErr> {
        Ok(((), g))
    }

    open spec fn spec_on_length_delimited(
        st: (),
        field: u32,
        contents: DelimitedView,
        stack: StackModel,
    ) -> Result<((), StackModel), ScanErr> {
        Ok(((), stack))
    }

    proof fn lemma_on_group_progress(st: (), field: u32, g: GroupModel) {
    }

    fn on_numeric(&mut self, _field: u32, _value: NumericField) -> (r: Result<(), ScanErr>) {
        Ok(())
    }

    fn on_group<G: GroupStack>(
        &mut self,
        _field: u32,
        _group: &mut GroupDelimitedImpl<'a>,
        _group_stack: &mut G,
    ) -> (r: Result<(), ScanErr>) {
        Ok(())
    }

    fn on_length_delimited<G: GroupStack>(
        &mut self,
        _field: u32,
        _delimited: LengthDelimitedImpl<'a>,
        _group_stack: &mut G,
    ) -> (r: Result<(), ScanErr>) {
        Ok(())
    }
}

impl ResettableScanner for NoOp {
    open spec fn spec_reset(st: ()) -> () {
        ()
    }

    fn reset(&mut self) {
    }
}

impl IntoResettableScanner for NoOp {
    type Resettable = Self;

    open spec fn spec_resettable(st: ()) -> () {
        ()
    }

    fn into_resettable(self) -> (r: Self) {
        self
    }
}

impl<'a, T: ?Sized> IntoScanner<'a, T> for NoOp {
    type Scanner = Self;

    open spec fn spec_scanner(&self) -> () {
        ()
    }

    fn into_scanner(self) -> (r: Self) {
        self
    }
}


impl CloneScanner for NoOp {
    fn clone_scanner(&self) -> (r: Self) {
        NoOp
    }
}

} // verus!
