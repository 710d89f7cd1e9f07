//! Scanning the contents of a length-delimited field as an embedded message.
use vstd::prelude::*;

use crate::scan::error::ScanErr;
use crate::scan::group::stack::{GroupStack, StackModel};
use crate::scan::{
    ScanCallbacks, lemma_message_step_progress, next_event, spec_scan_message, step_matches,
};
use crate::wire::parse::{
    DelimitedView, EventReader, LengthDelimited, LengthDelimitedImpl, ParseEventReader,
};

verus! {

/// The outcome of scanning the contents `c` of a length-delimited field as
/// an embedded message, with the group stack `stack`.
pub open spec fn spec_scan_delimited<'a, S: ScanCallbacks<'a>>(
    st: S::State,
    c: DelimitedView,
    stack: StackModel,
) -> Result<(S::State, StackModel), ScanErr> {
    spec_scan_message::<S>(st, stack, c.0, 0)
}

/// Allows scanning the contents of a delimited field.
pub trait ScanDelimited<'a>: LengthDelimited<'a> {
    /// Scans the contents of the delimited field as an embedded message and
    /// returns the scanner's output.
    ///
    /// The provided scanner has its callbacks invoked for each scan event.
    fn scan_with<S: ScanCallbacks<'a>, G: GroupStack>(self, scanner: S, group_stack: &mut G) -> (r:
        Result<S::ScanOutput, ScanErr>)
        ensures
            match spec_scan_delimited::<S>(scanner.state(), self.contents(), old(group_stack).model()) {
                Ok((st, stack)) => r matches Ok(out) && S::output_matches(st, out)
                    && final(group_stack).model() == stack,
                Err(e) => r matches Err(e2) && e2 == e,
            },
    ;

    /// Scans the contents of the delimited field as an embedded message into
    /// `scanner`, which keeps what it saw before (protobuf merges repeated
    /// occurrences of an embedded message).
    fn scan_into<S: ScanCallbacks<'a>, G: GroupStack>(
        self,
        scanner: &mut S,
        group_stack: &mut G,
    ) -> (r: Result<(), ScanErr>)
        ensures
            step_matches(
                spec_scan_delimited::<S>(old(scanner).state(), self.contents(), old(group_stack).model()),
                r,
                (final(scanner).state(), final(group_stack).model()),
            ),
    ;
}

/// Functionally an alias for [`LengthDelimited`] plus [`ScanDelimited`].
///
/// Blanket-implemented for all compatible types.
pub trait ScanLengthDelimited<'a>: ScanDelimited<'a> {}

impl<'a, L: ScanDelimited<'a>> ScanLengthDelimited<'a> for L {}

impl<'a> ScanDelimited<'a> for LengthDelimitedImpl<'a> {
    fn scan_with<S: ScanCallbacks<'a>, G: GroupStack>(self, scanner: S, group_stack: &mut G) -> (r:
        Result<S::ScanOutput, ScanErr>) {
        let mut scanner = scanner;
        match self.scan_into(&mut scanner, group_stack) {
            Ok(()) => Ok(scanner.into_scan_output()),
            Err(e) => Err(e),
        }
    }

    fn scan_into<S: ScanCallbacks<'a>, G: GroupStack>(
        self,
        scanner: &mut S,
        group_stack: &mut G,
    ) -> (r: Result<(), ScanErr>) {
        scan_events_into(self.into_events(), scanner, group_stack)
    }
}

/// Scans the events of `parse` to the end with `scanner`.
pub fn scan_events_into<'a, S: ScanCallbacks<'a>, G: GroupStack>(
    parse: EventReader<'a>,
    scanner: &mut S,
    group_stack: &mut G,
) -> (r: Result<(), ScanErr>)
    ensures
        step_matches(
            spec_scan_message::<S>(
                old(scanner).state(),
                old(group_stack).model(),
                parse.input(),
                parse.pending(),
            ),
            r,
            (final(scanner).state(), final(group_stack).model()),
        ),
{
    let mut events = parse;
    loop
        invariant
            spec_scan_message::<S>(
                old(scanner).state(),
                old(group_stack).model(),
                parse.input(),
                parse.pending(),
            ) == spec_scan_message::<S>(
                scanner.state(),
                group_stack.model(),
                events.input(),
                events.pending(),
            ),
        decreases events.input().len(),
    {
        proof {
            lemma_message_step_progress::<S>(
                scanner.state(),
                group_stack.model(),
                events.input(),
                events.pending(),
            );
        }
        match next_event(&mut events, &mut *scanner, &mut *group_stack) {
            None => return Ok(()),
            Some(Err(e)) => return Err(e),
            Some(Ok(())) => {},
        }
    }
}

} // verus!
