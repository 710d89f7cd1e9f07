//! Scanning a protobuf message: handing each event of a message to callbacks
//! that decide what to keep.
use vstd::prelude::*;

pub mod delimited;
pub mod encoding;
pub mod error;
pub mod field;
pub mod group;
pub mod merge;
pub mod save_from;

use crate::scan::error::{ScanErr, ScanError};
use crate::scan::group::delimited::{GroupDelimitedImpl, GroupModel, spec_scan_through};
use crate::scan::group::stack::{GroupStack, StackModel};
use crate::wire::numeric_field::NumericField;
use crate::wire::parse::{
    DelimitedView, EventReader, GroupOp, LengthDelimitedImpl, ParseEvent, ParseEventReader,
    spec_next_event,
};

verus! {

/// Something a scan produces a result from once it is done.
///
/// `State` is the abstract state that the contracts of the scanning traits
/// speak of; `output_matches` says which output a state yields.
pub trait IntoScanOutput: Sized {
    /// What the scan produces.
    type ScanOutput;
    /// The abstract state of the scanner.
    type State;

    /// The scanner's abstract state.
    spec fn state(&self) -> Self::State;

    /// Whether `out` is the output for state `st`.
    spec fn output_matches(st: Self::State, out: Self::ScanOutput) -> bool;

    /// Produces the scan output.
    fn into_scan_output(self) -> (r: Self::ScanOutput)
        ensures
            Self::output_matches(self.state(), r),
    ;
}

/// A scanner that can be copied in its current state.
pub trait CloneScanner: IntoScanOutput {
    /// Returns a scanner in the same state.
    fn clone_scanner(&self) -> (r: Self)
        ensures
            r.state() == self.state(),
    ;
}

/// A scanner that can be "reset" after handling some events.
///
/// This is used to implement protobuf oneof semantics. When one of the fields
/// in a oneof is encountered after a different field was encountered earlier
/// during parsing, the scanner for the earlier field has its
/// [`ResettableScanner::reset`] method called to signal the invalidation.
pub trait ResettableScanner: IntoScanOutput {
    /// The state after a reset.
    spec fn spec_reset(st: Self::State) -> Self::State;

    /// Resets the scanner.
    fn reset(&mut self)
        ensures
            final(self).state() == Self::spec_reset(old(self).state()),
    ;
}

/// A type that can be transformed into a [`ResettableScanner`] type.
///
/// Implementations can use `Self` for [`IntoResettableScanner::Resettable`] if they
/// already implement the trait.
pub trait IntoResettableScanner: IntoScanOutput {
    /// The resettable scanner.
    type Resettable: ResettableScanner;

    /// The state of the resettable scanner made from state `st`.
    spec fn spec_resettable(st: Self::State) -> <Self::Resettable as IntoScanOutput>::State;

    /// Makes the resettable scanner.
    fn into_resettable(self) -> (r: Self::Resettable)
        ensures
            r.state() == Self::spec_resettable(self.state()),
    ;
}

/// A message that can be scanned.
pub trait ScanMessage {
    /// The scanner builder for the message.
    type ScannerBuilder;

    /// Creates a new scanner builder.
    fn scanner() -> Self::ScannerBuilder;
}

/// A scanner for a protobuf message type.
///
/// This functions as a marker trait for scanner types that specifically scan
/// for messages (not fields or oneofs).
pub trait MessageScanner {
    /// The message type that this scanner can read.
    type Message;
}

/// A oneof grouping in a message that can be scanned for.
pub trait ScannableOneOf {
    /// A discriminant for the oneof variants.
    ///
    /// This should be an enum with one variant for each proto field in the oneof.
    type FieldNumber;
}

/// A builder of a [`Scan`] over a byte stream.
///
/// This is a convenience trait that provides `scan` and `scan_events`
/// functions. It is blanket-implemented for all [`MessageScanner`] types.
pub trait ScannerBuilder<'a, M: ?Sized>: IntoScanner<'a, M> + Sized {
    /// Starts a scan of the events of `read` with the scanner built from
    /// `self`.
    fn scan_events(self, read: EventReader<'a>) -> (r: Scan<'a, Self::Scanner, ()>)
        ensures
            r.input() == read.input(),
            r.pending() == read.pending(),
            r.scanner().state() == self.spec_scanner(),
    ;

    /// Starts a scan of `read` with the scanner built from `self`.
    fn scan(self, read: &'a [u8]) -> (r: Scan<'a, Self::Scanner, ()>)
        ensures
            r.input() == read@,
            r.pending() == 0,
            r.scanner().state() == self.spec_scanner(),
    ;
}

impl<'a, S: MessageScanner + IntoScanner<'a, <S as MessageScanner>::Message>> ScannerBuilder<
    'a,
    <S as MessageScanner>::Message,
> for S {
    fn scan_events(self, read: EventReader<'a>) -> (r: Scan<'a, Self::Scanner, ()>) {
        Scan::new(read, self.into_scanner())
    }

    fn scan(self, read: &'a [u8]) -> (r: Scan<'a, Self::Scanner, ()>) {
        self.scan_events(crate::wire::parse::parse(read))
    }
}

/// Something that produces a scanner for fields of protobuf type `T`.
pub trait IntoScanner<'a, T: ?Sized> {
    /// The scanner produced.
    type Scanner: IntoScanOutput;

    /// The state of the scanner produced.
    spec fn spec_scanner(&self) -> <Self::Scanner as IntoScanOutput>::State;

    /// Produces the scanner.
    fn into_scanner(self) -> (r: Self::Scanner)
        ensures
            r.state() == self.spec_scanner(),
    ;
}

/// Whether an exec result `r` and the state `after` agree with the
/// specified outcome `s`: on success `after` is the new state, on failure
/// the error is the specified one (and the state is left unsaid).
pub open spec fn step_matches<T>(s: Result<T, ScanErr>, r: Result<(), ScanErr>, after: T) -> bool {
    match s {
        Ok(v) => r is Ok && after == v,
        Err(e) => r == Err::<(), ScanErr>(e),
    }
}

/// Callbacks for parse events encountered during a scan.
///
/// Each callback's effect is given by a spec function over the scanner's
/// abstract state: the new state, or the error that stops the scan.
pub trait ScanCallbacks<'a>: IntoScanOutput {
    /// Effect of a numeric field.
    spec fn spec_on_numeric(st: Self::State, field: u32, value: NumericField) -> Result<
        Self::State,
        ScanErr,
    >;

    /// Effect of an SGROUP tag, given the group scan it may read from.
    spec fn spec_on_group(st: Self::State, field: u32, g: GroupModel) -> Result<
        (Self::State, GroupModel),
        ScanErr,
    >;

    /// Effect of a length-delimited field with the given contents, given the
    /// group stack a nested scan uses.
    spec fn spec_on_length_delimited(
        st: Self::State,
        field: u32,
        contents: DelimitedView,
        stack: StackModel,
    ) -> Result<(Self::State, StackModel), ScanErr>;

    /// A group callback never lengthens the input still to be read.
    proof fn lemma_on_group_progress(st: Self::State, field: u32, g: GroupModel)
        ensures
            Self::spec_on_group(st, field, g) matches Ok((_, g2)) ==> g2.input.len()
                <= g.input.len(),
    ;

    /// Called when a numeric field is parsed.
    fn on_numeric(&mut self, field: u32, value: NumericField) -> (r: Result<(), ScanErr>)
        ensures
            step_matches(
                Self::spec_on_numeric(old(self).state(), field, value),
                r,
                final(self).state(),
            ),
    ;

    /// Called when an SGROUP tag is read; `group` gives access to the
    /// group's contents.
    fn on_group<G: GroupStack>(
        &mut self,
        field: u32,
        group: &mut GroupDelimitedImpl<'a>,
        group_stack: &mut G,
    ) -> (r: Result<(), ScanErr>)
        ensures
            step_matches(
                Self::spec_on_group(
                    old(self).state(),
                    field,
                    old(group).model(old(group_stack).model()),
                ),
                r,
                (final(self).state(), final(group).model(final(group_stack).model())),
            ),
    ;

    /// Called when a length-delimited field is encountered.
    fn on_length_delimited<G: GroupStack>(
        &mut self,
        field: u32,
        delimited: LengthDelimitedImpl<'a>,
        group_stack: &mut G,
    ) -> (r: Result<(), ScanErr>)
        ensures
            step_matches(
                Self::spec_on_length_delimited(
                    old(self).state(),
                    field,
                    delimited@,
                    old(group_stack).model(),
                ),
                r,
                (final(self).state(), final(group_stack).model()),
            ),
    ;
}

/// One step of a message scan: read the next event at the front of `input`
/// (after skipping `pending` bytes) and apply it to the scanner. `None` at the
/// end of the message; otherwise the new scanner state, group stack, input and
/// pending count, or the error that stops the scan.
///
/// A group is scanned to its end; an EGROUP tag outside any group is a
/// mismatch.
pub open spec fn spec_message_step<'a, S: ScanCallbacks<'a>>(
    st: S::State,
    stack: StackModel,
    input: Seq<u8>,
    pending: nat,
) -> Option<Result<(S::State, StackModel, Seq<u8>, nat), ScanErr>> {
    match spec_next_event(input, pending) {
        None => None,
        Some(Err(e)) => Some(Err(ScanError::Decode(e))),
        Some(Ok((f, ev, input2, pending2))) => Some(
            match ev {
                ParseEvent::Numeric(v) => match S::spec_on_numeric(st, f, v) {
                    Ok(st2) => Ok((st2, stack, input2, pending2)),
                    Err(e) => Err(e),
                },
                ParseEvent::LengthDelimited(c) => match S::spec_on_length_delimited(
                    st,
                    f,
                    c,
                    stack,
                ) {
                    Ok((st2, stack2)) => Ok((st2, stack2, input2, pending2)),
                    Err(e) => Err(e),
                },
                ParseEvent::Group(GroupOp::Start) => match spec_scan_through::<S>(
                    st,
                    f,
                    GroupModel { input: input2, pending: pending2, open_count: 0, stack },
                ) {
                    Ok((st2, g)) => Ok((st2, g.stack, g.input, g.pending)),
                    Err(e) => Err(e),
                },
                ParseEvent::Group(GroupOp::End) => Err(ScanError::GroupMismatch),
            },
        ),
    }
}

/// Every step of a message scan shortens the input.
pub proof fn lemma_message_step_progress<'a, S: ScanCallbacks<'a>>(
    st: S::State,
    stack: StackModel,
    input: Seq<u8>,
    pending: nat,
)
    ensures
        spec_message_step::<S>(st, stack, input, pending) matches Some(Ok((_, _, i2, _)))
            ==> i2.len() < input.len(),
{
    crate::wire::parse::lemma_next_event_progress(input, pending);
    if let Some(Ok((f, ev, input2, pending2))) = spec_next_event(input, pending) {
        if ev == ParseEvent::<DelimitedView>::Group(GroupOp::Start) {
            crate::scan::group::delimited::lemma_scan_through_progress::<S>(
                st,
                f,
                GroupModel { input: input2, pending: pending2, open_count: 0, stack },
            );
        }
    }
}

/// The outcome of scanning a whole message: the final scanner state and
/// group stack, or the first error.
pub open spec fn spec_scan_message<'a, S: ScanCallbacks<'a>>(
    st: S::State,
    stack: StackModel,
    input: Seq<u8>,
    pending: nat,
) -> Result<(S::State, StackModel), ScanErr>
    decreases input.len(),
{
    match spec_message_step::<S>(st, stack, input, pending) {
        None => Ok((st, stack)),
        Some(Err(e)) => Err(e),
        Some(Ok((st2, stack2, input2, pending2))) => {
            proof {
                lemma_message_step_progress::<S>(st, stack, input, pending);
            }
            spec_scan_message::<S>(st2, stack2, input2, pending2)
        },
    }
}

/// Reads the next event from `parse` and hands it to `scanner`.
///
/// Returns `None` at the end of the input.
pub fn next_event<'a, S: ScanCallbacks<'a>, G: GroupStack>(
    parse: &mut EventReader<'a>,
    scanner: &mut S,
    group_stack: &mut G,
) -> (r: Option<Result<(), ScanErr>>)
    ensures
        match spec_message_step::<S>(
            old(scanner).state(),
            old(group_stack).model(),
            old(parse).input(),
            old(parse).pending(),
        ) {
            None => r is None && final(scanner).state() == old(scanner).state()
                && final(group_stack).model() == old(group_stack).model(),
            Some(Err(e)) => r == Some(Err::<(), ScanErr>(e)),
            Some(Ok((st, stack, input, pending))) => r == Some(Ok::<(), ScanErr>(()))
                && final(scanner).state() == st && final(group_stack).model() == stack
                && final(parse).input() == input && final(parse).pending() == pending,
        },
{
    let ghost input0 = parse.input();
    let ghost pending0 = parse.pending();
    let next = parse.next();
    proof {
        crate::wire::parse::lemma_next_event_spec(
            input0,
            pending0,
            parse.input(),
            parse.pending(),
            next,
        );
    }
    let step = match next {
        None => return None,
        Some(Err(e)) => return Some(Err(ScanError::Decode(e))),
        Some(Ok((field, event))) => match event {
            ParseEvent::Numeric(value) => {
                let r = scanner.on_numeric(field, value);
                Some(r)
            },
            ParseEvent::LengthDelimited(delimited) => {
                let r = scanner.on_length_delimited(field, delimited, group_stack);
                Some(r)
            },
            ParseEvent::Group(op) => match op {
                GroupOp::Start => {
                    let mut group = GroupDelimitedImpl::new(*parse);
                    let r = group.scan_through_mut(scanner, field, group_stack);
                    *parse = group.into_parse();
                    Some(r)
                },
                GroupOp::End => Some(Err(ScanError::GroupMismatch)),
            },
        },
    };
    match step {
        Some(Ok(())) => Some(Ok(())),
        other => other,
    }
}

/// A scan in progress: an event reader, the scanner its events go to, and
/// the stack of open groups.
pub struct Scan<'a, S, G> {
    parse: EventReader<'a>,
    scanner: S,
    group_stack: G,
}

impl<'a, S> Scan<'a, S, ()> {
    /// Starts a scan of `input` with `scanner` and no room for groups.
    pub fn new(input: EventReader<'a>, scanner: S) -> (r: Self)
        ensures
            r.input() == input.input(),
            r.pending() == input.pending(),
            r.scanner() == scanner,
            r.group_stack() == (),
    {
        Scan { parse: input, scanner, group_stack: () }
    }
}

impl<'a, S, G> Scan<'a, S, G> {
    /// The input still to be read.
    pub closed spec fn input(&self) -> Seq<u8> {
        self.parse.input()
    }

    /// The bytes to skip before the next tag.
    pub closed spec fn pending(&self) -> nat {
        self.parse.pending()
    }

    /// The scanner the events go to.
    pub closed spec fn scanner(&self) -> S {
        self.scanner
    }

    /// The stack of open groups.
    pub closed spec fn group_stack(&self) -> G {
        self.group_stack
    }

    /// Replaces the group stack, which limits how deeply groups may nest.
    pub fn with_group_stack<H: GroupStack>(self, group_stack: H) -> (r: Scan<'a, S, H>)
        ensures
            r.input() == self.input(),
            r.pending() == self.pending(),
            r.scanner() == self.scanner(),
            r.group_stack() == group_stack,
    {
        Scan { parse: self.parse, scanner: self.scanner, group_stack }
    }
}

/// A scan that hands out the outcome of each event, one at a time.
pub struct IntoIter<'a, S, G>(Scan<'a, S, G>);

impl<'a, S, G> Scan<'a, S, G> {
    /// Steps through the scan one event at a time.
    pub fn into_iter(self) -> (r: IntoIter<'a, S, G>)
        ensures
            r.scan() == self,
    {
        IntoIter(self)
    }
}

impl<'a, S, G> IntoIter<'a, S, G> {
    /// The scan in its current position.
    pub closed spec fn scan(&self) -> Scan<'a, S, G> {
        self.0
    }
}

impl<'a, S: ScanCallbacks<'a>, G: GroupStack> IntoIter<'a, S, G> {
    /// Reads the next event and hands it to the scanner; `None` at the end of
    /// the input.
    pub fn next(&mut self) -> (r: Option<Result<(), ScanErr>>)
        ensures
            match spec_message_step::<S>(
                old(self).scan().scanner().state(),
                old(self).scan().group_stack().model(),
                old(self).scan().input(),
                old(self).scan().pending(),
            ) {
                None => r is None,
                Some(Err(e)) => r == Some(Err::<(), ScanErr>(e)),
                Some(Ok((st, stack, input, pending))) => r == Some(Ok::<(), ScanErr>(()))
                    && final(self).scan().scanner().state() == st
                    && final(self).scan().group_stack().model() == stack
                    && final(self).scan().input() == input && final(self).scan().pending()
                    == pending,
            },
    {
        let scan = &mut self.0;
        next_event(&mut scan.parse, &mut scan.scanner, &mut scan.group_stack)
    }
}

impl<'a, S: ScanCallbacks<'a>, G: GroupStack> Scan<'a, S, G> {
    /// Reads every event and returns the scanner's output, or the first
    /// error.
    pub fn read_all(self) -> (r: Result<S::ScanOutput, ScanErr>)
        ensures
            match spec_scan_message::<S>(
                self.scanner().state(),
                self.group_stack().model(),
                self.input(),
                self.pending(),
            ) {
                Ok((st, _)) => r matches Ok(out) && S::output_matches(st, out),
                Err(e) => r matches Err(e2) && e2 == e,
            },
    {
        let Scan { mut parse, mut scanner, mut group_stack } = self;
        loop
            invariant
                spec_scan_message::<S>(
                    self.scanner().state(),
                    self.group_stack().model(),
                    self.input(),
                    self.pending(),
                ) == spec_scan_message::<S>(
                    scanner.state(),
                    group_stack.model(),
                    parse.input(),
                    parse.pending(),
                ),
            decreases parse.input().len(),
        {
            proof {
                lemma_message_step_progress::<S>(
                    scanner.state(),
                    group_stack.model(),
                    parse.input(),
                    parse.pending(),
                );
            }
            match next_event(&mut parse, &mut scanner, &mut group_stack) {
                None => return Ok(scanner.into_scan_output()),
                Some(Err(e)) => return Err(e),
                Some(Ok(())) => {},
            }
        }
    }
}

} // verus!
