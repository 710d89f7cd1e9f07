//! Reading a protobuf message as a sequence of events, one per tag.
use vstd::prelude::*;

use core::convert::Infallible;

use crate::decode_error::DecodeError;
use crate::wire::numeric_field::NumericField;
use crate::wire::tag::{WireType, spec_read_tag};
use crate::wire::wire_type::{I32, I64, NumericWireType, Varint};
use crate::wire::spec_parse_varint;

pub mod callbacks;
pub mod event_reader;
pub mod length_delimited;
pub mod limit_reader;
pub mod numeric_iter;

pub use callbacks::{ParseCallbacks, ParseState};
pub use event_reader::{EventReader, parse};
pub use length_delimited::{DelimitedTypes, LengthDelimited, LengthDelimitedImpl};
pub use limit_reader::LimitReader;
pub use numeric_iter::NumericIter;

verus! {

/// The opening or closing of a group.
#[derive(Copy, Clone, Debug, PartialEq, Eq, Hash, Structural)]
pub enum GroupOp {
    Start,
    End,
}

/// A tag and value parsed from a protobuf stream.
///
/// Each instance corresponds to a protobuf wire format tag and its
/// contents. Numeric values are available directly and length-delimited
/// contents through `L`.
#[derive(Debug)]
pub enum ParseEvent<L> {
    /// A numeric field was encountered.
    Numeric(NumericField),
    /// A group was opened or closed.
    Group(GroupOp),
    /// A length-delimited field was encountered.
    LengthDelimited(L),
}

/// The contents of a length-delimited field as seen in a specification: the
/// bytes of the field that the input holds (all of them unless the input
/// ends early) and the declared length.
pub type DelimitedView = (Seq<u8>, u32);

/// The payload of a length-delimited field whose length varint was read and
/// that starts at the front of `rest`.
pub open spec fn spec_delimited_view(rest: Seq<u8>, len: u32) -> DelimitedView {
    (rest.take(vstd::math::min(len as int, rest.len() as int)), len)
}

/// The next event at the front of `s`: the field number, the event, and how
/// many bytes were read for it (for a length-delimited field, up to the start
/// of its contents). `None` when the input is exhausted; a tag cut short is
/// an `UnexpectedEnd` error.
pub open spec fn spec_read_event(s: Seq<u8>) -> Option<
    Result<(u32, ParseEvent<DelimitedView>, nat), DecodeError<Infallible>>,
> {
    if s.len() == 0 {
        None
    } else {
        spec_read_event_at(s)
    }
}

/// The next event at the front of the non-empty input `s`.
pub open spec fn spec_read_event_at(s: Seq<u8>) -> Option<
    Result<(u32, ParseEvent<DelimitedView>, nat), DecodeError<Infallible>>,
> {
    match spec_read_tag(s) {
        Err(e) => Some(Err(e)),
        Ok((tag, n)) => {
            let t = s.skip(n as int);
            let f = tag.field_number;
            match tag.wire_type {
                WireType::Varint => match Varint::spec_read_from(t) {
                    Ok((v, m)) => Some(Ok((f, ParseEvent::Numeric(NumericField::Varint(v)), n + m))),
                    Err(e) => Some(Err(e)),
                },
                WireType::I64 => match I64::spec_read_from(t) {
                    Ok((v, m)) => Some(Ok((f, ParseEvent::Numeric(NumericField::I64(v)), n + m))),
                    Err(e) => Some(Err(e)),
                },
                WireType::I32 => match I32::spec_read_from(t) {
                    Ok((v, m)) => Some(Ok((f, ParseEvent::Numeric(NumericField::I32(v)), n + m))),
                    Err(e) => Some(Err(e)),
                },
                WireType::Sgroup => Some(Ok((f, ParseEvent::Group(GroupOp::Start), n))),
                WireType::Egroup => Some(Ok((f, ParseEvent::Group(GroupOp::End), n))),
                WireType::LengthDelimited => match spec_parse_varint(t) {
                    Ok((len, m)) => if len > u32::MAX {
                        Some(Err(DecodeError::TooLargeLengthDelimited(len)))
                    } else {
                        Some(
                            Ok(
                                (
                                    f,
                                    ParseEvent::LengthDelimited(
                                        spec_delimited_view(t.skip(m as int), len as u32),
                                    ),
                                    (n + m) as nat,
                                ),
                            ),
                        )
                    },
                    Err(e) => Some(Err(crate::decode_error::varint_error_to_decode(e))),
                },
            }
        },
    }
}

/// How many bytes must be skipped before the next event is read: the
/// declared length of a length-delimited event, nothing after any other.
pub open spec fn spec_pending_after(e: ParseEvent<DelimitedView>) -> nat {
    match e {
        ParseEvent::LengthDelimited((_, len)) => len as nat,
        _ => 0,
    }
}

/// Protobuf parser that interprets a message as a sequence of events.
pub trait ParseEventReader<'a>: Sized {
    /// The bytes not yet read.
    spec fn input(&self) -> Seq<u8>;

    /// The bytes to skip before the next tag (the contents of the last
    /// length-delimited field).
    spec fn pending(&self) -> nat;

    /// Advances the parse state and returns the next event, an error, or
    /// `None` if the input is exhausted.
    ///
    /// Whatever the caller did with the contents of a length-delimited event,
    /// the next call starts after those contents.
    fn next(&mut self) -> (r: Option<
        Result<(u32, ParseEvent<LengthDelimitedImpl<'a>>), DecodeError<Infallible>>,
    >)
        ensures
            next_event_matches(
                old(self).input(),
                old(self).pending(),
                final(self).input(),
                final(self).pending(),
                r,
            ),
    ;
}

/// The view of an event as handed out by a reader.
pub open spec fn event_view<'a>(e: ParseEvent<LengthDelimitedImpl<'a>>) -> ParseEvent<DelimitedView> {
    match e {
        ParseEvent::Numeric(n) => ParseEvent::Numeric(n),
        ParseEvent::Group(g) => ParseEvent::Group(g),
        ParseEvent::LengthDelimited(l) => ParseEvent::LengthDelimited(l@),
    }
}

/// What one step of an event reader must satisfy: skip the pending bytes
/// (failing with `UnexpectedEnd` if there are too few), then read the event
/// at the front of what is left as [`spec_read_event`] says.
pub open spec fn next_event_matches<'a>(
    input: Seq<u8>,
    pending: nat,
    input2: Seq<u8>,
    pending2: nat,
    r: Option<Result<(u32, ParseEvent<LengthDelimitedImpl<'a>>), DecodeError<Infallible>>>,
) -> bool {
    &&& pending2 == (match r {
        Some(Ok((_, e))) => spec_pending_after(event_view(e)),
        _ => 0,
    })
    &&& if pending > input.len() {
        r == Some(Err::<(u32, ParseEvent<LengthDelimitedImpl<'a>>), DecodeError<Infallible>>(
            DecodeError::UnexpectedEnd,
        )) && input2 == input
    } else {
        let s = input.skip(pending as int);
        match spec_read_event(s) {
            None => r is None && input2 == s,
            Some(Err(e)) => r == Some(
                Err::<(u32, ParseEvent<LengthDelimitedImpl<'a>>), DecodeError<Infallible>>(e),
            ),
            Some(Ok((f, ev, n))) => r matches Some(Ok((f2, e2))) && f2 == f && event_view(e2)
                == ev && input2 == s.skip(n as int),
        }
    }
}

/// The next event after skipping `pending` bytes of `input`, together with
/// the input and pending count that follow it; `None` at the end of the input.
pub open spec fn spec_next_event(input: Seq<u8>, pending: nat) -> Option<
    Result<(u32, ParseEvent<DelimitedView>, Seq<u8>, nat), DecodeError<Infallible>>,
> {
    if pending > input.len() {
        Some(Err(DecodeError::UnexpectedEnd))
    } else {
        let s = input.skip(pending as int);
        match spec_read_event(s) {
            None => None,
            Some(Err(e)) => Some(Err(e)),
            Some(Ok((f, ev, n))) => Some(Ok((f, ev, s.skip(n as int), spec_pending_after(ev)))),
        }
    }
}

/// What a reader step returns is what [`spec_next_event`] says.
pub proof fn lemma_next_event_spec<'a>(
    input: Seq<u8>,
    pending: nat,
    input2: Seq<u8>,
    pending2: nat,
    r: Option<Result<(u32, ParseEvent<LengthDelimitedImpl<'a>>), DecodeError<Infallible>>>,
)
    requires
        next_event_matches(input, pending, input2, pending2, r),
    ensures
        match spec_next_event(input, pending) {
            None => r is None,
            Some(Err(e)) => r == Some(
                Err::<(u32, ParseEvent<LengthDelimitedImpl<'a>>), DecodeError<Infallible>>(e),
            ),
            Some(Ok((f, ev, i2, p2))) => r matches Some(Ok((f2, e2))) && f2 == f && event_view(e2)
                == ev && input2 == i2 && pending2 == p2,
        },
{
}

/// Every event that is read shortens the input.
pub proof fn lemma_next_event_progress(input: Seq<u8>, pending: nat)
    ensures
        spec_next_event(input, pending) matches Some(Ok((f, ev, i2, p2))) ==> i2.len()
            < input.len(),
{
    if pending <= input.len() {
        let s = input.skip(pending as int);
        lemma_read_event_progress(s);
    }
}

/// An event that `s` holds whole, contents included, reads the same with any
/// bytes after it.
pub proof fn lemma_read_event_extend(s: Seq<u8>, t: Seq<u8>)
    requires
        spec_read_event(s) matches Some(Ok((f, ev, n))) && n + spec_pending_after(ev) <= s.len(),
    ensures
        spec_read_event(s + t) == spec_read_event(s),
{
    crate::read::lemma_parse_varint_len(s);
    crate::wire::lemma_parse_varint_extend(s, t, 0);
    let (tag, n) = spec_read_tag(s)->Ok_0;
    let u = s.skip(n as int);
    assert((s + t).skip(n as int) =~= u + t);
    match tag.wire_type {
        WireType::Varint => {
            crate::wire::lemma_parse_varint_extend(u, t, 0);
        },
        WireType::I64 => {
            assert((u + t).take(8) =~= u.take(8));
        },
        WireType::I32 => {
            assert((u + t).take(4) =~= u.take(4));
        },
        WireType::LengthDelimited => {
            crate::read::lemma_parse_varint_len(u);
            crate::wire::lemma_parse_varint_extend(u, t, 0);
            let (len, m) = spec_parse_varint(u)->Ok_0;
            assert((u + t).skip(m as int) =~= u.skip(m as int) + t);
            assert((u.skip(m as int) + t).take(len as int) =~= u.skip(m as int).take(len as int));
        },
        _ => {},
    }
}

/// Whether what follows the first `pending` bytes of `input` is a whole
/// number of events: none of them a group tag, every length-delimited field
/// with all its contents.
pub open spec fn spec_events_complete(input: Seq<u8>, pending: nat) -> bool
    decreases input.len(),
{
    if pending > input.len() {
        false
    } else {
        let s = input.skip(pending as int);
        if s.len() == 0 {
            true
        } else {
            match spec_read_event(s) {
                Some(Ok((f, ev, n))) => if ev is Group {
                    false
                } else {
                    proof {
                        lemma_read_event_progress(s);
                    }
                    spec_events_complete(s.skip(n as int), spec_pending_after(ev))
                },
                _ => false,
            }
        }
    }
}

/// Reading from complete events followed by more bytes: at the end of the
/// events, the next event is the first of the bytes after them; before, it
/// is the same event as without them, followed by the same bytes.
pub proof fn lemma_next_event_concat(a: Seq<u8>, pending: nat, b: Seq<u8>)
    requires
        spec_events_complete(a, pending),
    ensures
        a.skip(pending as int).len() == 0 ==> spec_next_event(a + b, pending) == spec_next_event(
            b,
            0,
        ),
        a.skip(pending as int).len() != 0 ==> (spec_next_event(a, pending) matches Some(
            Ok((f, ev, i2, p2)),
        ) && !(ev is Group) && spec_events_complete(i2, p2) && i2.len() < a.len()
            && spec_next_event(a + b, pending) == Some(
            Ok::<(u32, ParseEvent<DelimitedView>, Seq<u8>, nat), DecodeError<Infallible>>(
                (f, ev, i2 + b, p2),
            ),
        )),
{
    let s = a.skip(pending as int);
    assert((a + b).skip(pending as int) =~= s + b);
    if s.len() == 0 {
        assert(s + b =~= b);
        assert(b.skip(0) =~= b);
    } else {
        lemma_read_event_progress(s);
        let (f, ev, n) = spec_read_event(s)->Some_0->Ok_0;
        assert(spec_events_complete(s.skip(n as int), spec_pending_after(ev)));
        assert(spec_pending_after(ev) <= s.skip(n as int).len());
        lemma_read_event_extend(s, b);
        assert((s + b).skip(n as int) =~= s.skip(n as int) + b);
    }
}

/// Skipping twice is skipping the sum.
pub proof fn lemma_skip_skip(s: Seq<u8>, a: int, b: int)
    requires
        0 <= a,
        0 <= b,
        a + b <= s.len(),
    ensures
        s.skip(a).skip(b) == s.skip(a + b),
{
    assert(s.skip(a).skip(b) =~= s.skip(a + b));
}

/// Every event that is read takes at least one byte.
pub proof fn lemma_read_event_progress(s: Seq<u8>)
    ensures
        spec_read_event(s) matches Some(Ok((f, e, n))) ==> 1 <= n <= s.len(),
{
    crate::read::lemma_parse_varint_len(s);
    if let Ok((tag, n)) = spec_read_tag(s) {
        let t = s.skip(n as int);
        crate::read::lemma_parse_varint_len(t);
        Varint::lemma_read_progress(t);
        I64::lemma_read_progress(t);
        I32::lemma_read_progress(t);
    }
}

} // verus!
