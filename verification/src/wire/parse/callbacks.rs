//! A push-based interface to the events of a message.
use vstd::prelude::*;

use core::convert::Infallible;

use crate::decode_error::DecodeError;
use crate::scan::IntoScanOutput;
use crate::wire::numeric_field::NumericField;
use crate::wire::parse::{
    DelimitedView, EventReader, GroupOp, LengthDelimitedImpl, ParseEvent, ParseEventReader,
    spec_next_event,
};

verus! {

/// Where a parse stands as seen in a specification: the input not yet read
/// and the bytes to skip before the next tag.
pub type ParseState = (Seq<u8>, nat);

/// Whether an exec result `r` and the state `after` agree with the
/// specified outcome `s`: on success `after` is the new state, on failure
/// the error is the specified one (and the state is left unsaid).
pub open spec fn callback_matches<T, E>(s: Result<T, E>, r: Result<(), E>, after: T) -> bool {
    match s {
        Ok(v) => r is Ok && after == v,
        Err(e) => r == Err::<(), E>(e),
    }
}

/// Callback interface for handling a stream of parse events.
///
/// This provides a push-based interface for handling parse events. That's in
/// contrast to [`ParseEventReader::next`], which is a pull-based mechanism.
/// It is used with [`EventReader::read_all`] to receive callbacks for each
/// parsed tag.
///
/// Each callback's effect is given by a spec function over the abstract
/// state of [`IntoScanOutput`].
pub trait ParseCallbacks<'a>: IntoScanOutput {
    /// The error the callbacks stop the parse with.
    type ParseError;

    /// The error that stands for a wire format error.
    spec fn spec_lift(e: DecodeError<Infallible>) -> Self::ParseError;

    /// Effect of a numeric field.
    spec fn spec_numeric(st: Self::State, field: u32, value: NumericField) -> Result<
        Self::State,
        Self::ParseError,
    >;

    /// Effect of an SGROUP tag, given where the parse stands after it; the
    /// callback may read on from there.
    spec fn spec_group_start(st: Self::State, field: u32, p: ParseState) -> Result<
        (Self::State, ParseState),
        Self::ParseError,
    >;

    /// Effect of an EGROUP tag.
    spec fn spec_group_end(st: Self::State, field: u32) -> Result<Self::State, Self::ParseError>;

    /// Effect of a length-delimited field with the given contents.
    spec fn spec_length_delimited(st: Self::State, field: u32, contents: DelimitedView) -> Result<
        Self::State,
        Self::ParseError,
    >;

    /// The group callback never lengthens the input.
    proof fn lemma_group_start_progress(st: Self::State, field: u32, p: ParseState)
        ensures
            Self::spec_group_start(st, field, p) matches Ok((_, p2)) ==> p2.0.len() <= p.0.len(),
    ;

    /// Converts a wire format error.
    fn lift_error(e: DecodeError<Infallible>) -> (r: Self::ParseError)
        ensures
            r == Self::spec_lift(e),
    ;

    /// Called when a numeric field is parsed.
    fn on_numeric(&mut self, field: u32, value: NumericField) -> (r: Result<(), Self::ParseError>)
        ensures
            callback_matches(
                Self::spec_numeric(old(self).state(), field, value),
                r,
                final(self).state(),
            ),
    ;

    /// Called when a SGROUP tag is read; `parse` continues after the tag.
    fn on_group_start(&mut self, field: u32, parse: &mut EventReader<'a>) -> (r: Result<
        (),
        Self::ParseError,
    >)
        ensures
            callback_matches(
                Self::spec_group_start(old(self).state(), field, (old(parse).input(), old(parse).pending())),
                r,
                (final(self).state(), (final(parse).input(), final(parse).pending())),
            ),
    ;

    /// Called when a EGROUP tag is read.
    fn on_group_end(&mut self, field: u32) -> (r: Result<(), Self::ParseError>)
        ensures
            callback_matches(Self::spec_group_end(old(self).state(), field), r, final(self).state()),
    ;

    /// Called when a length-delimited field tag is encountered.
    fn on_length_delimited(&mut self, field: u32, delimited: LengthDelimitedImpl<'a>) -> (r: Result<
        (),
        Self::ParseError,
    >)
        ensures
            callback_matches(
                Self::spec_length_delimited(old(self).state(), field, delimited@),
                r,
                final(self).state(),
            ),
    ;
}

/// One step of a push-based parse: the next event handed to the callbacks.
/// `None` at the end of the input; otherwise the new state, input and
/// pending count, or the error that stops the parse.
pub open spec fn spec_parse_step<'a, P: ParseCallbacks<'a>>(
    st: P::State,
    input: Seq<u8>,
    pending: nat,
) -> Option<Result<(P::State, Seq<u8>, nat), P::ParseError>> {
    match spec_next_event(input, pending) {
        None => None,
        Some(Err(e)) => Some(Err(P::spec_lift(e))),
        Some(Ok((f, ev, input2, pending2))) => Some(
            match ev {
                ParseEvent::Numeric(v) => match P::spec_numeric(st, f, v) {
                    Ok(st2) => Ok((st2, input2, pending2)),
                    Err(e) => Err(e),
                },
                ParseEvent::Group(GroupOp::Start) => match P::spec_group_start(
                    st,
                    f,
                    (input2, pending2),
                ) {
                    Ok((st2, (input3, pending3))) => Ok((st2, input3, pending3)),
                    Err(e) => Err(e),
                },
                ParseEvent::Group(GroupOp::End) => match P::spec_group_end(st, f) {
                    Ok(st2) => Ok((st2, input2, pending2)),
                    Err(e) => Err(e),
                },
                ParseEvent::LengthDelimited(c) => match P::spec_length_delimited(st, f, c) {
                    Ok(st2) => Ok((st2, input2, pending2)),
                    Err(e) => Err(e),
                },
            },
        ),
    }
}

/// Every step of a push-based parse shortens the input.
pub proof fn lemma_parse_step_progress<'a, P: ParseCallbacks<'a>>(
    st: P::State,
    input: Seq<u8>,
    pending: nat,
)
    ensures
        spec_parse_step::<P>(st, input, pending) matches Some(Ok((_, i2, _))) ==> i2.len()
            < input.len(),
{
    crate::wire::parse::lemma_next_event_progress(input, pending);
    if let Some(Ok((f, ev, input2, pending2))) = spec_next_event(input, pending) {
        P::lemma_group_start_progress(st, f, (input2, pending2));
    }
}

/// The outcome of handing every event of the input to the callbacks: the
/// final state, or the first error.
pub open spec fn spec_parse_all<'a, P: ParseCallbacks<'a>>(
    st: P::State,
    input: Seq<u8>,
    pending: nat,
) -> Result<P::State, P::ParseError>
    decreases input.len(),
{
    match spec_parse_step::<P>(st, input, pending) {
        None => Ok(st),
        Some(Err(e)) => Err(e),
        Some(Ok((st2, input2, pending2))) => {
            proof {
                lemma_parse_step_progress::<P>(st, input, pending);
            }
            spec_parse_all::<P>(st2, input2, pending2)
        },
    }
}

impl<'a> EventReader<'a> {
    /// Hands every event to `callbacks` and returns their output, or the
    /// first error.
    pub fn read_all<P: ParseCallbacks<'a>>(self, callbacks: P) -> (r: Result<
        P::ScanOutput,
        P::ParseError,
    >)
        ensures
            match spec_parse_all::<P>(callbacks.state(), self.input(), self.pending()) {
                Ok(st) => r matches Ok(out) && P::output_matches(st, out),
                Err(e) => r matches Err(e2) && e2 == e,
            },
    {
        let mut parse = self;
        let mut cb = callbacks;
        loop
            invariant
                spec_parse_all::<P>(callbacks.state(), self.input(), self.pending())
                    == spec_parse_all::<P>(cb.state(), parse.input(), parse.pending()),
            decreases parse.input().len(),
        {
            let ghost input0 = parse.input();
            let ghost pending0 = parse.pending();
            proof {
                lemma_parse_step_progress::<P>(cb.state(), input0, pending0);
            }
            let next = parse.next();
            proof {
                crate::wire::parse::lemma_next_event_spec(
                    input0,
                    pending0,
                    parse.input(),
                    parse.pending(),
                    next,
                );
            }
            let (field, event) = match next {
                None => return Ok(cb.into_scan_output()),
                Some(Err(e)) => return Err(P::lift_error(e)),
                Some(Ok(fe)) => fe,
            };
            let r = match event {
                ParseEvent::Numeric(value) => cb.on_numeric(field, value),
                ParseEvent::Group(op) => match op {
                    GroupOp::Start => cb.on_group_start(field, &mut parse),
                    GroupOp::End => cb.on_group_end(field),
                },
                ParseEvent::LengthDelimited(delimited) => cb.on_length_delimited(field, delimited),
            };
            match r {
                Ok(()) => {},
                Err(e) => return Err(e),
            }
        }
    }
}

} // verus!
