//! Saving a field whose presence matters.
use vstd::prelude::*;

use crate::scan::error::ScanErr;
use crate::scan::field::OnScanField;
use crate::scan::group::delimited::{GroupDelimitedImpl, GroupModel};
use crate::scan::group::stack::{GroupStack, StackModel};
use crate::scan::{CloneScanner, IntoScanOutput};
use crate::wire::numeric_field::NumericField;
use crate::wire::parse::{DelimitedView, LengthDelimitedImpl};

verus! {

/// Scanner that wraps another and records whether the field was seen; its
/// output is `None` if it never was.
pub struct SaveOptional<S> {
    pub(crate) inner: S,
    pub(crate) present: bool,
}

impl<S: IntoScanOutput> SaveOptional<S> {
    /// Wraps `inner`; the field has not been seen yet.
    pub fn new(inner: S) -> (r: Self)
        ensures
            r.state() == (inner.state(), false),
    {
        Self { inner, present: false }
    }
}

/// Marks a successful step of the inner scanner as making the field present.
pub open spec fn spec_mark_present<T>(r: Result<T, ScanErr>) -> Result<(T, bool), ScanErr> {
    match r {
        Ok(v) => Ok((v, true)),
        Err(e) => Err(e),
    }
}

impl<S: IntoScanOutput> IntoScanOutput for SaveOptional<S> {
    type ScanOutput = Option<S::ScanOutput>;
    type State = (S::State, bool);

    closed spec fn state(&self) -> (S::State, bool) {
        (self.inner.state(), self.present)
    }

    open spec fn output_matches(st: (S::State, bool), out: Option<S::ScanOutput>) -> bool {
        match out {
            Some(o) => st.1 && S::output_matches(st.0, o),
            None => !st.1,
        }
    }

    fn into_scan_output(self) -> (r: Option<S::ScanOutput>) {
        let Self { inner, present } = self;
        if present {
            Some(inner.into_scan_output())
        } else {
            None
        }
    }
}

impl<'a, S: OnScanField<'a>> OnScanField<'a> for SaveOptional<S> {
    open spec fn spec_field_numeric(st: (S::State, bool), value: NumericField) -> Result<
        (S::State, bool),
        ScanErr,
    > {
        spec_mark_present(S::spec_field_numeric(st.0, value))
    }

    open spec fn spec_field_group(st: (S::State, bool), g: GroupModel) -> Result<
        ((S::State, bool), GroupModel),
        ScanErr,
    > {
        match S::spec_field_group(st.0, g) {
            Ok((s2, g2)) => Ok(((s2, true), g2)),
            Err(e) => Err(e),
        }
    }

    open spec fn spec_field_delimited(
        st: (S::State, bool),
        contents: DelimitedView,
        stack: StackModel,
    ) -> Result<((S::State, bool), StackModel), ScanErr> {
        match S::spec_field_delimited(st.0, contents, stack) {
            Ok((s2, stack2)) => Ok(((s2, true), stack2)),
            Err(e) => Err(e),
        }
    }

    proof fn lemma_field_group_progress(st: (S::State, bool), g: GroupModel) {
        S::lemma_field_group_progress(st.0, g);
    }

    fn on_numeric(&mut self, value: NumericField) -> (r: Result<(), ScanErr>) {
        match self.inner.on_numeric(value) {
            Ok(()) => {},
            Err(e) => return Err(e),
        }
        self.present = true;
        Ok(())
    }

    fn on_group<G: GroupStack>(
        &mut self,
        group: &mut GroupDelimitedImpl<'a>,
        group_stack: &mut G,
    ) -> (r: Result<(), ScanErr>) {
        match self.inner.on_group(group, group_stack) {
            Ok(()) => {},
            Err(e) => return Err(e),
        }
        self.present = true;
        Ok(())
    }

    fn on_length_delimited<G: GroupStack>(
        &mut self,
        delimited: LengthDelimitedImpl<'a>,
        group_stack: &mut G,
    ) -> (r: Result<(), ScanErr>) {
        match self.inner.on_length_delimited(delimited, group_stack) {
            Ok(()) => {},
            Err(e) => return Err(e),
        }
        self.present = true;
        Ok(())
    }
}


impl<S: CloneScanner> CloneScanner for SaveOptional<S> {
    fn clone_scanner(&self) -> (r: Self) {
        Self { inner: self.inner.clone_scanner(), present: self.present }
    }
}

} // verus!
