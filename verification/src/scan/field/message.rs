//! Scanning an embedded message field.
use vstd::prelude::*;

use core::convert::Infallible;
use core::marker::PhantomData;

use crate::scan::delimited::{ScanDelimited, spec_scan_delimited};
use crate::scan::error::{ScanErr, ScanError};
use crate::scan::field::OnScanField;
use crate::scan::group::delimited::{
    GroupDelimitedImpl, GroupModel, lemma_group_scan_with_progress, spec_group_scan_with,
};
use crate::scan::group::stack::{GroupStack, StackModel};
use crate::scan::{CloneScanner, IntoScanOutput, IntoScanner, MessageScanner, ResettableScanner, ScanCallbacks};
use crate::wire::numeric_field::NumericField;
use crate::wire::parse::{DelimitedView, LengthDelimitedImpl};

verus! {

/// Marker type for a message field.
pub struct Message<F>(PhantomData<F>, Infallible);

/// Marker for a field that is known to be present.
#[derive(Copy, Clone, Default, PartialEq, Eq, Structural)]
pub struct Present;

/// Whether an embedded message was seen: [`Present`] when that is assumed,
/// `Option<Present>` when it is tracked.
pub trait Presence: Sized {
    /// Whether the message counts as seen.
    spec fn is_present(&self) -> bool;

    /// Whether the message counts as seen before any was read.
    spec fn spec_initial() -> bool;

    /// The presence before any message was read.
    fn initial() -> (r: Self)
        ensures
            r.is_present() == Self::spec_initial(),
    ;

    /// The presence once a message was read.
    fn seen() -> (r: Self)
        ensures
            r.is_present(),
    ;
}

impl Presence for Present {
    open spec fn is_present(&self) -> bool {
        true
    }

    open spec fn spec_initial() -> bool {
        true
    }

    fn initial() -> (r: Self) {
        Present
    }

    fn seen() -> (r: Self) {
        Present
    }
}

impl Presence for Option<Present> {
    open spec fn is_present(&self) -> bool {
        self is Some
    }

    open spec fn spec_initial() -> bool {
        false
    }

    fn initial() -> (r: Self) {
        None
    }

    fn seen() -> (r: Self) {
        Some(Present)
    }
}

/// Scanner for an embedded message field: the message's contents (or a
/// group's) are scanned with `S`, and every occurrence merges into the same
/// scanner. `P` records whether the message was seen.
pub struct Scanner<S, P> {
    scanner: S,
    presence: P,
}

impl<S: IntoScanOutput, P: Presence> Scanner<S, P> {
    /// Scans message fields with `scanner`, starting from `presence`.
    pub fn new(scanner: S, presence: P) -> (r: Self)
        ensures
            r.scanner_state() == scanner.state(),
            r.present() == presence.is_present(),
    {
        Self { scanner, presence }
    }

    /// The state of the message scanner.
    pub closed spec fn scanner_state(&self) -> S::State {
        self.scanner.state()
    }

    /// Whether the message counts as seen.
    pub closed spec fn present(&self) -> bool {
        self.presence.is_present()
    }
}

/// A message scanner that treats a message field that is absent as empty.
pub struct EmptyIfMissing<S>(S);

/// Extension trait for [`MessageScanner`] for scanning embedded message fields.
pub trait ScanOptionalMessage: MessageScanner + Sized {
    /// Transforms a message scanner into one that treats a message field as
    /// empty if it is not seen.
    ///
    /// Embedded message fields in protobuf messages are implicitly optional.
    /// Scanning them with the message scanner itself tracks whether the
    /// message was seen and produces an `Option`; the wrapper returned here
    /// assumes it was, and produces the scanner's output directly.
    fn empty_if_not_present(self) -> (r: EmptyIfMissing<Self>)
        ensures
            r.inner() == self,
    ;
}

impl<S: MessageScanner + Sized> ScanOptionalMessage for S {
    fn empty_if_not_present(self) -> (r: EmptyIfMissing<Self>) {
        EmptyIfMissing(self)
    }
}

impl<S> EmptyIfMissing<S> {
    /// The wrapped message scanner.
    pub closed spec fn inner(&self) -> S {
        self.0
    }
}

impl<'a, M, S: MessageScanner<Message = M> + IntoScanner<'a, M>> IntoScanner<'a, Message<M>> for S {
    type Scanner = Scanner<<S as IntoScanner<'a, M>>::Scanner, Present>;

    open spec fn spec_scanner(
        &self,
    ) -> (<<S as IntoScanner<'a, M>>::Scanner as IntoScanOutput>::State, bool) {
        (<S as IntoScanner<'a, M>>::spec_scanner(self), true)
    }

    fn into_scanner(self) -> (r: Scanner<<S as IntoScanner<'a, M>>::Scanner, Present>) {
        Scanner::new(<S as IntoScanner<'a, M>>::into_scanner(self), Present)
    }
}

impl<'a, M, S: MessageScanner<Message = M> + IntoScanner<'a, M>> IntoScanner<'a, Option<Message<M>>> for S {
    type Scanner = Scanner<<S as IntoScanner<'a, M>>::Scanner, Option<Present>>;

    open spec fn spec_scanner(
        &self,
    ) -> (<<S as IntoScanner<'a, M>>::Scanner as IntoScanOutput>::State, bool) {
        (<S as IntoScanner<'a, M>>::spec_scanner(self), false)
    }

    fn into_scanner(self) -> (r: Scanner<<S as IntoScanner<'a, M>>::Scanner, Option<Present>>) {
        Scanner::new(<S as IntoScanner<'a, M>>::into_scanner(self), None)
    }
}

impl<'a, M, S: MessageScanner<Message = M> + IntoScanner<'a, M>> IntoScanner<'a, Option<Message<M>>> for EmptyIfMissing<S> {
    type Scanner = Scanner<<S as IntoScanner<'a, M>>::Scanner, Present>;

    open spec fn spec_scanner(
        &self,
    ) -> (<<S as IntoScanner<'a, M>>::Scanner as IntoScanOutput>::State, bool) {
        (<S as IntoScanner<'a, M>>::spec_scanner(&self.inner()), true)
    }

    fn into_scanner(self) -> (r: Scanner<<S as IntoScanner<'a, M>>::Scanner, Present>) {
        Scanner::new(<S as IntoScanner<'a, M>>::into_scanner(self.0), Present)
    }
}

impl<S: IntoScanOutput> IntoScanOutput for Scanner<S, Present> {
    type ScanOutput = S::ScanOutput;
    type State = (S::State, bool);

    closed spec fn state(&self) -> (S::State, bool) {
        (self.scanner_state(), self.present())
    }

    open spec fn output_matches(st: (S::State, bool), out: S::ScanOutput) -> bool {
        S::output_matches(st.0, out)
    }

    fn into_scan_output(self) -> (r: S::ScanOutput) {
        let Self { scanner, presence } = self;
        scanner.into_scan_output()
    }
}

impl<'a, S: ScanCallbacks<'a>> OnScanField<'a> for Scanner<S, Present> {
    open spec fn spec_field_numeric(st: (S::State, bool), value: NumericField) -> Result<
        (S::State, bool),
        ScanErr,
    > {
        Err(ScanError::WrongWireType)
    }

    open spec fn spec_field_group(st: (S::State, bool), g: GroupModel) -> Result<
        ((S::State, bool), GroupModel),
        ScanErr,
    > {
        match spec_group_scan_with::<S>(st.0, g) {
            Ok((s2, g2)) => Ok(((s2, true), g2)),
            Err(e) => Err(e),
        }
    }

    open spec fn spec_field_delimited(
        st: (S::State, bool),
        contents: DelimitedView,
        stack: StackModel,
    ) -> Result<((S::State, bool), StackModel), ScanErr> {
        match spec_scan_delimited::<S>(st.0, contents, stack) {
            Ok((s2, stack2)) => Ok(((s2, true), stack2)),
            Err(e) => Err(e),
        }
    }

    proof fn lemma_field_group_progress(st: (S::State, bool), g: GroupModel) {
        lemma_group_scan_with_progress::<S>(st.0, g);
    }

    fn on_numeric(&mut self, _value: NumericField) -> (r: Result<(), ScanErr>) {
        Err(ScanError::WrongWireType)
    }

    fn on_group<G: GroupStack>(
        &mut self,
        group: &mut GroupDelimitedImpl<'a>,
        group_stack: &mut G,
    ) -> (r: Result<(), ScanErr>) {
        match group.scan_with(&mut self.scanner, group_stack) {
            Ok(()) => {},
            Err(e) => return Err(e),
        }
        self.presence = <Present as Presence>::seen();
        Ok(())
    }

    fn on_length_delimited<G: GroupStack>(
        &mut self,
        delimited: LengthDelimitedImpl<'a>,
        group_stack: &mut G,
    ) -> (r: Result<(), ScanErr>) {
        match delimited.scan_into(&mut self.scanner, group_stack) {
            Ok(()) => {},
            Err(e) => return Err(e),
        }
        self.presence = <Present as Presence>::seen();
        Ok(())
    }
}

impl<S: CloneScanner> CloneScanner for Scanner<S, Present> {
    fn clone_scanner(&self) -> (r: Self) {
        Self { scanner: self.scanner.clone_scanner(), presence: Present }
    }
}

impl<S: ResettableScanner> ResettableScanner for Scanner<S, Present> {
    open spec fn spec_reset(st: (S::State, bool)) -> (S::State, bool) {
        (S::spec_reset(st.0), <Present as Presence>::spec_initial())
    }

    fn reset(&mut self) {
        self.presence = <Present as Presence>::initial();
        self.scanner.reset();
    }
}

impl<S: IntoScanOutput> IntoScanOutput for Scanner<S, Option<Present>> {
    type ScanOutput = Option<S::ScanOutput>;
    type State = (S::State, bool);

    closed spec fn state(&self) -> (S::State, bool) {
        (self.scanner_state(), self.present())
    }

    open spec fn output_matches(st: (S::State, bool), out: Option<S::ScanOutput>) -> bool {
        match out {
            Some(o) => st.1 && S::output_matches(st.0, o),
            None => !st.1,
        }
    }

    fn into_scan_output(self) -> (r: Option<S::ScanOutput>) {
        let Self { scanner, presence } = self;
        match presence {
            Some(Present) => Some(scanner.into_scan_output()),
            None => None,
        }
    }
}

impl<'a, S: ScanCallbacks<'a>> OnScanField<'a> for Scanner<S, Option<Present>> {
    open spec fn spec_field_numeric(st: (S::State, bool), value: NumericField) -> Result<
        (S::State, bool),
        ScanErr,
    > {
        Err(ScanError::WrongWireType)
    }

    open spec fn spec_field_group(st: (S::State, bool), g: GroupModel) -> Result<
        ((S::State, bool), GroupModel),
        ScanErr,
    > {
        match spec_group_scan_with::<S>(st.0, g) {
            Ok((s2, g2)) => Ok(((s2, true), g2)),
            Err(e) => Err(e),
        }
    }

    open spec fn spec_field_delimited(
        st: (S::State, bool),
        contents: DelimitedView,
        stack: StackModel,
    ) -> Result<((S::State, bool), StackModel), ScanErr> {
        match spec_scan_delimited::<S>(st.0, contents, stack) {
            Ok((s2, stack2)) => Ok(((s2, true), stack2)),
            Err(e) => Err(e),
        }
    }

    proof fn lemma_field_group_progress(st: (S::State, bool), g: GroupModel) {
        lemma_group_scan_with_progress::<S>(st.0, g);
    }

    fn on_numeric(&mut self, _value: NumericField) -> (r: Result<(), ScanErr>) {
        Err(ScanError::WrongWireType)
    }

    fn on_group<G: GroupStack>(
        &mut self,
        group: &mut GroupDelimitedImpl<'a>,
        group_stack: &mut G,
    ) -> (r: Result<(), ScanErr>) {
        match group.scan_with(&mut self.scanner, group_stack) {
            Ok(()) => {},
            Err(e) => return Err(e),
        }
        self.presence = <Option<Present> as Presence>::seen();
        Ok(())
    }

    fn on_length_delimited<G: GroupStack>(
        &mut self,
        delimited: LengthDelimitedImpl<'a>,
        group_stack: &mut G,
    ) -> (r: Result<(), ScanErr>) {
        match delimited.scan_into(&mut self.scanner, group_stack) {
            Ok(()) => {},
            Err(e) => return Err(e),
        }
        self.presence = <Option<Present> as Presence>::seen();
        Ok(())
    }
}

impl<S: CloneScanner> CloneScanner for Scanner<S, Option<Present>> {
    fn clone_scanner(&self) -> (r: Self) {
        let presence = match self.presence {
            Some(Present) => Some(Present),
            None => None,
        };
        Self { scanner: self.scanner.clone_scanner(), presence }
    }
}

impl<S: ResettableScanner> ResettableScanner for Scanner<S, Option<Present>> {
    open spec fn spec_reset(st: (S::State, bool)) -> (S::State, bool) {
        (S::spec_reset(st.0), <Option<Present> as Presence>::spec_initial())
    }

    fn reset(&mut self) {
        self.presence = <Option<Present> as Presence>::initial();
        self.scanner.reset();
    }
}

} // verus!
