use vstd::prelude::*;

use core::convert::Infallible;

use crate::decode_error::DecodeError;
use crate::read::Read;
use crate::wire::numeric_field::NumericField;
use crate::wire::parse::{
    DelimitedView, GroupOp, LengthDelimitedImpl, LimitReader, ParseEvent, ParseEventReader,
    event_view, next_event_matches, spec_read_event,
};
use crate::wire::tag::spec_read_tag;
use crate::wire::tag::{Tag, WireType};
use crate::wire::wire_type::{I32, I64, NumericWireType, Varint};

verus! {

/// What to do before reading the next tag.
#[derive(Copy, Clone, Debug)]
enum DoBeforeNext {
    /// Nothing.
    DoNothing,
    /// Skip the given number of bytes: the contents of the last
    /// length-delimited field.
    Skip(u32),
}

/// An event reader over an in-memory protobuf message.
#[derive(Copy, Clone)]
pub struct EventReader<'a> {
    inner: &'a [u8],
    do_before: DoBeforeNext,
}

/// Starts reading `r` as a sequence of events.
pub fn parse<'a>(r: &'a [u8]) -> (p: EventReader<'a>)
    ensures
        p.input() == r@,
        p.pending() == 0,
{
    EventReader::new(r)
}

impl<'a> EventReader<'a> {
    /// Starts reading `reader` as a sequence of events.
    pub fn new(reader: &'a [u8]) -> (p: Self)
        ensures
            p.input() == reader@,
            p.pending() == 0,
    {
        Self { inner: reader, do_before: DoBeforeNext::DoNothing }
    }
}

impl<'a> ParseEventReader<'a> for EventReader<'a> {
    closed spec fn input(&self) -> Seq<u8> {
        self.inner@
    }

    closed spec fn pending(&self) -> nat {
        match self.do_before {
            DoBeforeNext::DoNothing => 0,
            DoBeforeNext::Skip(n) => n as nat,
        }
    }

    fn next(&mut self) -> (r: Option<
        Result<(u32, ParseEvent<LengthDelimitedImpl<'a>>), DecodeError<Infallible>>,
    >) {
        match self.do_before {
            DoBeforeNext::Skip(to_skip) => {
                self.do_before = DoBeforeNext::DoNothing;
                let mut reader = self.inner;
                match reader.skip(to_skip) {
                    Ok(_) => {
                        self.inner = reader;
                    },
                    Err(_) => {
                        return Some(Err(DecodeError::UnexpectedEnd));
                    },
                }
            },
            DoBeforeNext::DoNothing => {},
        }
        let ghost s = self.inner@;
        assert(old(self).pending() <= old(self).input().len());
        assert(s == old(self).input().skip(old(self).pending() as int));
        assert(self.pending() == 0);
        proof {
            crate::wire::tag::lemma_read_tag_no_read_error(s);
        }
        if self.inner.len() == 0 {
            return None;
        }
        let mut tag_reader = self.inner;
        let tag = match Tag::read_from(&mut tag_reader) {
            Ok(tag) => tag,
            Err(e) => {
                return Some(Err(e));
            },
        };
        assert(spec_read_tag(s) matches Ok((t, n)) && t == tag);
        let ghost n = spec_read_tag(s)->Ok_0.1;
        self.inner = tag_reader;
        assert(self.inner@ == s.skip(n as int));
        let Tag { wire_type, field_number } = tag;
        let mut reader = self.inner;
        let ghost t = reader@;
        proof {
            Varint::lemma_read_progress(t);
            I64::lemma_read_progress(t);
            I32::lemma_read_progress(t);
            crate::read::lemma_parse_varint_no_read_error(t, 0);
        }
        let event = match wire_type {
            WireType::Varint => match Varint::read_from(&mut reader) {
                Ok(value) => ParseEvent::Numeric(NumericField::Varint(value)),
                Err(e) => return Some(Err(e)),
            },
            WireType::I64 => match I64::read_from(&mut reader) {
                Ok(value) => ParseEvent::Numeric(NumericField::I64(value)),
                Err(e) => return Some(Err(e)),
            },
            WireType::I32 => match I32::read_from(&mut reader) {
                Ok(value) => ParseEvent::Numeric(NumericField::I32(value)),
                Err(e) => return Some(Err(e)),
            },
            WireType::Sgroup => ParseEvent::Group(GroupOp::Start),
            WireType::Egroup => ParseEvent::Group(GroupOp::End),
            WireType::LengthDelimited => {
                let length = match Varint::read_from(&mut reader) {
                    Ok(l) => l,
                    Err(e) => return Some(Err(e)),
                };
                if length > u32::MAX as u64 {
                    return Some(Err(DecodeError::TooLargeLengthDelimited(length)));
                }
                let field_length = length as u32;
                if field_length != 0 {
                    self.do_before = DoBeforeNext::Skip(field_length);
                }
                ParseEvent::LengthDelimited(
                    LengthDelimitedImpl::new(LimitReader::new(reader, field_length)),
                )
            },
        };
        proof {
            assert(spec_read_tag(s) == Ok::<(Tag, nat), DecodeError<Infallible>>((tag, n)));
            let ghost c = spec_read_event(s)->Some_0->Ok_0.2;
            assert(spec_read_event(s) is Some && spec_read_event(s)->Some_0 is Ok && reader@ =~= s.skip(c as int))
                by {
                assert(s.skip(n as int) == t);
                crate::read::lemma_parse_varint_len(s);
                assert(n <= s.len());
                assert(t.len() == s.len() - n);
                match wire_type {
                    WireType::Varint => {
                        let m = Varint::spec_read_from(t)->Ok_0.1;
                        assert(c == n + m);
                        crate::read::lemma_parse_varint_len(t);
                        crate::wire::parse::lemma_skip_skip(s, n as int, m as int);
                        assert(reader@ =~= s.skip(c as int));
                    },
                    WireType::I64 => {
                        assert(c == n + 8);
                        crate::wire::parse::lemma_skip_skip(s, n as int, 8);
                        assert(reader@ =~= s.skip(c as int));
                    },
                    WireType::I32 => {
                        assert(c == n + 4);
                        crate::wire::parse::lemma_skip_skip(s, n as int, 4);
                        assert(reader@ =~= s.skip(c as int));
                    },
                    WireType::LengthDelimited => {
                        let m = crate::wire::spec_parse_varint(t)->Ok_0.1;
                        assert(c == n + m);
                        crate::read::lemma_parse_varint_len(t);
                        crate::wire::parse::lemma_skip_skip(s, n as int, m as int);
                        assert(reader@ =~= s.skip(c as int));
                    },
                    _ => {
                        assert(c == n);
                        assert(reader@ =~= s.skip(n as int));
                        assert(reader@ =~= s.skip(c as int));
                    },
                }
            }
        }
        self.inner = reader;
        assert(self.pending() == crate::wire::parse::spec_pending_after(event_view(event)));
        Some(Ok((field_number, event)))
    }
}

} // verus!
