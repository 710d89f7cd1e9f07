//! Scanning a proto2 group field.
use vstd::prelude::*;

use crate::scan::error::{ScanErr, ScanError};
use crate::scan::field::OnScanField;
use crate::scan::group::delimited::{
    GroupDelimitedImpl, GroupModel, lemma_group_scan_with_progress, spec_group_scan_with,
};
use crate::scan::group::stack::{GroupStack, StackModel};
use crate::scan::{CloneScanner, IntoScanOutput, IntoScanner, MessageScanner, ResettableScanner, ScanCallbacks};
use crate::wire::numeric_field::NumericField;
use crate::wire::parse::{DelimitedView, LengthDelimitedImpl};

verus! {

/// Scanner for a group field: the group's contents are scanned with the
/// message scanner `F`. A group field of any other wire type is an error.
pub struct Group<F>(F);

impl<F: IntoScanOutput> Group<F> {
    /// Scans group fields with `scanner`.
    pub fn new(scanner: F) -> (r: Self)
        ensures
            r.state() == scanner.state(),
    {
        Self(scanner)
    }
}

impl<'a, M, S: MessageScanner<Message = M> + IntoScanner<'a, M>> IntoScanner<'a, Group<M>> for S {
    type Scanner = Group<<S as IntoScanner<'a, M>>::Scanner>;

    open spec fn spec_scanner(
        &self,
    ) -> <<S as IntoScanner<'a, M>>::Scanner as IntoScanOutput>::State {
        <S as IntoScanner<'a, M>>::spec_scanner(self)
    }

    fn into_scanner(self) -> (r: Group<<S as IntoScanner<'a, M>>::Scanner>) {
        Group::new(<S as IntoScanner<'a, M>>::into_scanner(self))
    }
}

impl<F: IntoScanOutput> IntoScanOutput for Group<F> {
    type ScanOutput = F::ScanOutput;
    type State = F::State;

    closed spec fn state(&self) -> F::State {
        self.0.state()
    }

    open spec fn output_matches(st: F::State, out: F::ScanOutput) -> bool {
        F::output_matches(st, out)
    }

    fn into_scan_output(self) -> (r: F::ScanOutput) {
        self.0.into_scan_output()
    }
}

impl<'a, F: ScanCallbacks<'a>> OnScanField<'a> for Group<F> {
    open spec fn spec_field_numeric(st: F::State, value: NumericField) -> Result<F::State, ScanErr> {
        Err(ScanError::WrongWireType)
    }

    open spec fn spec_field_group(st: F::State, g: GroupModel) -> Result<(F::State, GroupModel), ScanErr> {
        spec_group_scan_with::<F>(st, g)
    }

    open spec fn spec_field_delimited(st: F::State, contents: DelimitedView, stack: StackModel) -> Result<
        (F::State, StackModel),
        ScanErr,
    > {
        Err(ScanError::WrongWireType)
    }

    proof fn lemma_field_group_progress(st: F::State, g: GroupModel) {
        lemma_group_scan_with_progress::<F>(st, g);
    }

    fn on_numeric(&mut self, _value: NumericField) -> (r: Result<(), ScanErr>) {
        Err(ScanError::WrongWireType)
    }

    fn on_group<G: GroupStack>(
        &mut self,
        group: &mut GroupDelimitedImpl<'a>,
        group_stack: &mut G,
    ) -> (r: Result<(), ScanErr>) {
        group.scan_with(&mut self.0, group_stack)
    }

    fn on_length_delimited<G: GroupStack>(
        &mut self,
        _delimited: LengthDelimitedImpl<'a>,
        _group_stack: &mut G,
    ) -> (r: Result<(), ScanErr>) {
        Err(ScanError::WrongWireType)
    }
}

impl<F: ResettableScanner> ResettableScanner for Group<F> {
    open spec fn spec_reset(st: F::State) -> F::State {
        F::spec_reset(st)
    }

    fn reset(&mut self) {
        self.0.reset();
    }
}


impl<F: CloneScanner> CloneScanner for Group<F> {
    fn clone_scanner(&self) -> (r: Self) {
        Self(self.0.clone_scanner())
    }
}

} // verus!
