use arrayvec::ArrayVec;

use proto_scan::scan::encoding::{Fixed, Varint, ZigZag};
use proto_scan::scan::error::ScanError;
use proto_scan::scan::field::save::{
    SaveBytesScanner, SaveMap, SaveMapValue, SaveNumeric, SaveOptional, SaveRepeated,
};
use proto_scan::scan::field::write::{RestoreOnReset, WriteRepeated};
use proto_scan::scan::field::{
    EmitRepeated, EmitScalar, Fold, Group, MapEntry, WriteCloned, MapEntryScanner, Message, NoOp, OnScanField, ProtoMap,
    Repeated, Save, SaveCloned, ScanRepeated, Write,
};
use proto_scan::scan::error::ScanErr;
use proto_scan::scan::group::{GroupDelimitedImpl, GroupModel, GroupStack, StackModel};
use proto_scan::scan::group::stack::single_slot_stack;
use proto_scan::scan::save_from::SaveFrom;
use proto_scan::scan::{
    next_event, IntoResettableScanner, IntoScanOutput, IntoScanner, ResettableScanner, Scan,
    ScanCallbacks, ScanMessage,
};
use proto_scan::wire::parse::{
    DelimitedView, EventReader, LengthDelimitedImpl, LimitReader, ParseCallbacks, ParseState,
};
use proto_scan::wire::{
    parse, parse_base128_varint, parse_varint_bytes, serialize_base128_varint, varint_bytes_chunk,
    varint_encoded_length, NumericField, ParseEventReader, ScalarField, Tag, WireType,
};
use proto_scan::{DecodeError, DecodeVarintError};
use proto_scan::read::ReadBytesError;

use core::convert::Infallible;
use proto_scan::wire::parse::NumericIter;
use proto_scan::wire::{I32 as WireI32, Varint as WireVarint};
use std::collections::HashMap;

fn tag(field_number: u32, wire_type: WireType) -> Vec<u8> {
    Tag {
        field_number,
        wire_type,
    }
    .serialized()
}

fn varint_field(field_number: u32, value: u64) -> Vec<u8> {
    [tag(field_number, WireType::Varint), serialize_base128_varint(value)].concat()
}

fn delimited_field(field_number: u32, contents: &[u8]) -> Vec<u8> {
    [
        tag(field_number, WireType::LengthDelimited),
        serialize_base128_varint(contents.len() as u64),
        contents.to_vec(),
    ]
    .concat()
}

/// Hands field 3 to a field scanner and ignores the rest.
struct ThirdField<T>(T);

impl<'a, T: OnScanField<'a>> ScanCallbacks<'a> for ThirdField<T> {
    fn spec_on_numeric(st: (), _field: u32, _value: NumericField) -> Result<(), ScanErr> {
        Ok(st)
    }

    fn spec_on_group(st: (), _field: u32, g: GroupModel) -> Result<((), GroupModel), ScanErr> {
        Ok((st, g))
    }

    fn spec_on_length_delimited(
        st: (),
        _field: u32,
        _contents: DelimitedView,
        stack: StackModel,
    ) -> Result<((), StackModel), ScanErr> {
        Ok((st, stack))
    }

    fn lemma_on_group_progress(_st: (), _field: u32, _g: GroupModel) {}

    fn on_numeric(&mut self, field: u32, value: NumericField) -> Result<(), ScanErr> {
        if field == 3 {
            self.0.on_numeric(value)
        } else {
            Ok(())
        }
    }

    fn on_group<G: GroupStack>(
        &mut self,
        field: u32,
        group: &mut GroupDelimitedImpl<'a>,
        group_stack: &mut G,
    ) -> Result<(), ScanErr> {
        if field == 3 {
            self.0.on_group(group, group_stack)
        } else {
            Ok(())
        }
    }

    fn on_length_delimited<G: GroupStack>(
        &mut self,
        field: u32,
        delimited: LengthDelimitedImpl<'a>,
        group_stack: &mut G,
    ) -> Result<(), ScanErr> {
        if field == 3 {
            self.0.on_length_delimited(delimited, group_stack)
        } else {
            Ok(())
        }
    }
}

impl<T: IntoScanOutput> IntoScanOutput for ThirdField<T> {
    type ScanOutput = T::ScanOutput;
    type State = ();

    fn state(&self) {}

    fn output_matches(_st: (), _out: T::ScanOutput) -> bool {
        true
    }

    fn into_scan_output(self) -> T::ScanOutput {
        self.0.into_scan_output()
    }
}

/// Counts numeric fields, group starts, group ends and length-delimited
/// fields.
#[derive(Default)]
struct EventCounter([usize; 4]);

impl IntoScanOutput for EventCounter {
    type ScanOutput = [usize; 4];
    type State = ();

    fn state(&self) {}

    fn output_matches(_st: (), _out: [usize; 4]) -> bool {
        true
    }

    fn into_scan_output(self) -> [usize; 4] {
        self.0
    }
}

impl<'a> ParseCallbacks<'a> for EventCounter {
    type ParseError = DecodeError<Infallible>;

    fn spec_lift(e: DecodeError<Infallible>) -> DecodeError<Infallible> {
        e
    }

    fn spec_numeric(st: (), _field: u32, _value: NumericField) -> Result<(), Self::ParseError> {
        Ok(st)
    }

    fn spec_group_start(
        st: (),
        _field: u32,
        p: ParseState,
    ) -> Result<((), ParseState), Self::ParseError> {
        Ok((st, p))
    }

    fn spec_group_end(st: (), _field: u32) -> Result<(), Self::ParseError> {
        Ok(st)
    }

    fn spec_length_delimited(
        st: (),
        _field: u32,
        _contents: DelimitedView,
    ) -> Result<(), Self::ParseError> {
        Ok(st)
    }

    fn lemma_group_start_progress(_st: (), _field: u32, _p: ParseState) {}

    fn lift_error(e: DecodeError<Infallible>) -> DecodeError<Infallible> {
        e
    }

    fn on_numeric(&mut self, _field: u32, _value: NumericField) -> Result<(), Self::ParseError> {
        self.0[0] += 1;
        Ok(())
    }

    fn on_group_start(
        &mut self,
        _field: u32,
        _parse: &mut EventReader<'a>,
    ) -> Result<(), Self::ParseError> {
        self.0[1] += 1;
        Ok(())
    }

    fn on_group_end(&mut self, _field: u32) -> Result<(), Self::ParseError> {
        self.0[2] += 1;
        Ok(())
    }

    fn on_length_delimited(
        &mut self,
        _field: u32,
        _delimited: LengthDelimitedImpl<'a>,
    ) -> Result<(), Self::ParseError> {
        self.0[3] += 1;
        Ok(())
    }
}

/// Field 1 goes to the first scanner, field 2 to the second.
fn two_fields<A, B>(a: A, b: B) -> MapEntryScanner<Varint<u64>, Varint<u64>, A, B> {
    MapEntryScanner::new(a, b)
}

#[test]
fn varint_serialization_exact_bytes() {
    assert_eq!(serialize_base128_varint(0), vec![0x00]);
    assert_eq!(serialize_base128_varint(1), vec![0x01]);
    assert_eq!(serialize_base128_varint(300), vec![0xac, 0x02]);
    assert_eq!(
        serialize_base128_varint(u64::MAX),
        vec![0xff, 0xff, 0xff, 0xff, 0xff, 0xff, 0xff, 0xff, 0xff, 0x01]
    );
    assert_eq!(parse_varint_bytes(&[0xac, 0x02, 0x55]), Ok((300, 2)));
    assert_eq!(
        parse_base128_varint::<()>(&[Ok(0xac), Ok(0x02), Err(())]),
        Ok((300, 2))
    );
}

#[test]
fn varint_parse_errors() {
    assert_eq!(parse_varint_bytes(&[]), Err(DecodeVarintError::UnexpectedEnd));
    assert_eq!(parse_varint_bytes(&[0x80]), Err(DecodeVarintError::UnexpectedEnd));
    // A trailing zero byte after the first is not a valid encoding.
    assert_eq!(
        parse_varint_bytes(&[0x80, 0x00]),
        Err(DecodeVarintError::InvalidVarint)
    );
    // More than ten bytes.
    assert_eq!(
        parse_varint_bytes(&[0xff; 11]),
        Err(DecodeVarintError::InvalidVarint)
    );
}

#[test]
fn varint_from_a_failing_source() {
    // A read error that the varint runs into comes back as `Read`.
    assert_eq!(
        parse_base128_varint(&[Ok(0x80), Err("broken")]),
        Err(DecodeVarintError::Read("broken"))
    );
    assert_eq!(
        parse_base128_varint::<&str>(&[Ok(0x80)]),
        Err(DecodeVarintError::UnexpectedEnd)
    );
    assert_eq!(
        parse_base128_varint::<&str>(&[Ok(0x80), Ok(0x00), Err("late")]),
        Err(DecodeVarintError::InvalidVarint)
    );
    let chunk = varint_bytes_chunk::<&str>(&[0x96, 0x01, 0, 0, 0, 0, 0, 0, 0, 0]);
    assert_eq!(parse_base128_varint(&chunk), Ok((150, 2)));
}

#[test]
fn varint_encoded_length_values() {
    for value in [0, 1, 127, 128, 150, 300, 16383, 16384, u64::MAX >> 1, u64::MAX] {
        assert_eq!(
            varint_encoded_length(value) as usize,
            serialize_base128_varint(value).len(),
            "value = {value}"
        );
    }
    assert_eq!(varint_encoded_length(0), 1);
    assert_eq!(varint_encoded_length(127), 1);
    assert_eq!(varint_encoded_length(128), 2);
    assert_eq!(varint_encoded_length(16383), 2);
    assert_eq!(varint_encoded_length(u64::MAX), 10);
}

#[test]
fn varint_bytes_chunk_wraps_each_byte() {
    let bytes = [1, 2, 3, 4, 5, 6, 7, 8, 9, 10];
    let chunk = varint_bytes_chunk::<()>(&bytes);
    assert_eq!(chunk, bytes.iter().map(|b| Ok(*b)).collect::<Vec<_>>());
}

#[test]
fn tag_roundtrip() {
    for (field_number, wire_type) in [
        (1, WireType::Varint),
        (2, WireType::I64),
        (15, WireType::LengthDelimited),
        (16, WireType::Sgroup),
        (2047, WireType::Egroup),
        ((1 << 29) - 1, WireType::I32),
    ] {
        let t = Tag {
            field_number,
            wire_type,
        };
        let bytes = [t.serialized(), vec![0xff, 0x01]].concat();
        assert_eq!(Tag::read_from(&mut bytes.as_slice()), Ok(t));
    }
}

#[test]
fn tag_errors() {
    // Wire types 6 and 7 do not exist.
    assert_eq!(
        Tag::read_from(&mut [0x0e].as_slice()),
        Err(DecodeError::InvalidWireType(6))
    );
    // A tag value beyond 32 bits.
    let big = serialize_base128_varint(1 << 32);
    assert_eq!(
        Tag::read_from(&mut big.as_slice()),
        Err(DecodeError::InvalidVarint)
    );
    assert_eq!(
        Tag::read_from(&mut [].as_slice()),
        Err(DecodeError::UnexpectedEnd)
    );
}

#[test]
fn numeric_and_scalar_serialization() {
    assert_eq!(NumericField::I32(0x04030201).serialize(), vec![1, 2, 3, 4]);
    assert_eq!(
        NumericField::I64(0x0807060504030201).serialize(),
        vec![1, 2, 3, 4, 5, 6, 7, 8]
    );
    assert_eq!(NumericField::Varint(300).serialize(), vec![0xac, 0x02]);
    assert_eq!(ScalarField::Varint(1).serialize(), vec![1]);
}

#[test]
fn limit_reader_varint_lowers_limit_by_bytes_read() {
    let bytes = [0x7f, 0, 0, 0, 0, 0, 0, 0, 0, 0, 0];
    let mut reader = LimitReader::new(bytes.as_slice(), 10);
    assert_eq!(reader.read_varint(), Ok(127));
    assert_eq!(reader.remaining(), 9);

    let bytes = [0xac, 0x02, 0];
    let mut reader = LimitReader::new(bytes.as_slice(), 3);
    assert_eq!(reader.read_varint(), Ok(300));
    assert_eq!(reader.remaining(), 1);

    // The limit cuts the varint short.
    let mut reader = LimitReader::new(bytes.as_slice(), 1);
    assert_eq!(reader.read_varint(), Err(DecodeVarintError::UnexpectedEnd));
}

#[test]
fn limit_reader_skip_past_limit_fails_and_keeps_position() {
    let bytes = [1u8, 2, 3, 4, 5];
    let mut reader = LimitReader::new(bytes.as_slice(), 2);
    assert_eq!(reader.skip(3), Err(ReadBytesError::UnexpectedEnd));
    assert_eq!(reader.remaining(), 2);
    assert_eq!(*reader.inner_ref(), &bytes[..]);
    assert_eq!(reader.skip(2), Ok(2));
    assert_eq!(reader.remaining(), 0);
    assert_eq!(*reader.inner_ref(), &bytes[2..]);
}

#[test]
fn cut_off_tag_is_an_error_not_the_end() {
    let input = [0x80u8];
    let mut events = parse(&input);
    assert!(matches!(events.next(), Some(Err(DecodeError::UnexpectedEnd))));
    let empty: [u8; 0] = [];
    assert!(parse(&empty).next().is_none());
    let input = [varint_field(1, 1), vec![0x80]].concat();
    let mut events = parse(&input);
    assert!(matches!(events.next(), Some(Ok((1, _)))));
    assert!(matches!(events.next(), Some(Err(DecodeError::UnexpectedEnd))));
}

#[test]
fn nested_group_scan_goes_on_after_the_inner_group() {
    // Group 1 { 1: 1, group 6 { 1: 9 }, 1: 2 }, then 1 outside the group.
    let input = [
        tag(1, WireType::Sgroup),
        varint_field(1, 1),
        tag(6, WireType::Sgroup),
        varint_field(1, 9),
        tag(6, WireType::Egroup),
        varint_field(1, 2),
        tag(1, WireType::Egroup),
    ]
    .concat();
    let scan = Scan::new(
        parse(&input),
        two_fields(Group::new(two_fields(SaveRepeated::<Varint<u64>>::new(), NoOp)), NoOp),
    )
    .with_group_stack(Vec::new());
    assert_eq!(scan.read_all(), Ok(((vec![1, 2], ()), ())));
}

#[test]
fn parse_errors() {
    // A length-delimited field longer than 32 bits.
    let input = [
        tag(1, WireType::LengthDelimited),
        serialize_base128_varint(1 << 32),
    ]
    .concat();
    let mut events = parse(&input);
    assert!(matches!(
        events.next(),
        Some(Err(DecodeError::TooLargeLengthDelimited(0x1_0000_0000)))
    ));

    // Contents that the input does not hold are an error at the next read.
    let input = [tag(1, WireType::LengthDelimited), vec![5, 1, 2]].concat();
    let mut events = parse(&input);
    assert!(matches!(events.next(), Some(Ok((1, _)))));
    assert!(matches!(events.next(), Some(Err(DecodeError::UnexpectedEnd))));
}

#[test]
fn last_value_wins() {
    let input = [varint_field(1, 7), varint_field(1, 9), varint_field(2, 3)].concat();
    let scan = Scan::new(
        parse(&input),
        two_fields(SaveNumeric::<Varint<u64>>::new(), SaveNumeric::<Varint<u32>>::new()),
    );
    assert_eq!(scan.read_all(), Ok((9, 3)));
}

#[test]
fn int32_negative_values_decode() {
    // int32 -1 is encoded as the ten-byte varint of its 64-bit extension.
    let input = varint_field(1, (-1i64) as u64);
    let scan = Scan::new(
        parse(&input),
        two_fields(SaveNumeric::<Varint<i32>>::new(), NoOp),
    );
    assert_eq!(scan.read_all(), Ok((-1, ())));
}

#[test]
fn sint_and_fixed_decode() {
    let input = [
        varint_field(1, 3),
        [tag(2, WireType::I32), 0xffff_fffeu32.to_le_bytes().to_vec()].concat(),
    ]
    .concat();
    let scan = Scan::new(
        parse(&input),
        two_fields(
            SaveNumeric::<Varint<ZigZag<i32>>>::new(),
            SaveNumeric::<Fixed<i32>>::new(),
        ),
    );
    assert_eq!(scan.read_all(), Ok((-2, -2)));
}

#[test]
fn out_of_range_and_wrong_wire_type() {
    let input = varint_field(1, 1 << 32);
    let scan = Scan::new(
        parse(&input),
        two_fields(SaveNumeric::<Varint<u32>>::new(), NoOp),
    );
    assert_eq!(scan.read_all(), Err(ScanError::VarintOutOfBounds));

    let input = varint_field(1, 2);
    let scan = Scan::new(
        parse(&input),
        two_fields(SaveNumeric::<Varint<bool>>::new(), NoOp),
    );
    assert_eq!(scan.read_all(), Err(ScanError::VarintOutOfBounds));

    let input = delimited_field(1, b"abc");
    let scan = Scan::new(
        parse(&input),
        two_fields(SaveNumeric::<Varint<u32>>::new(), NoOp),
    );
    assert_eq!(scan.read_all(), Err(ScanError::WrongWireType));
}

#[test]
fn truncated_input_is_a_decode_error() {
    let input = [tag(1, WireType::I64), vec![1, 2, 3]].concat();
    let scan = Scan::new(parse(&input), NoOp);
    assert_eq!(
        scan.read_all(),
        Err(ScanError::Decode(DecodeError::UnexpectedEnd))
    );
}

#[test]
fn strings_and_bytes() {
    let input = [delimited_field(1, "héllo".as_bytes()), delimited_field(2, &[0xff, 0])].concat();
    let scan = Scan::new(
        parse(&input),
        two_fields(
            SaveBytesScanner::<str>::new(),
            SaveBytesScanner::<[u8]>::new(),
        ),
    );
    assert_eq!(scan.read_all(), Ok(("héllo", &[0xffu8, 0][..])));

    // Invalid UTF-8 in a string field.
    let input = delimited_field(1, &[0xff, 0]);
    let scan = Scan::new(
        parse(&input),
        two_fields(SaveBytesScanner::<str>::new(), NoOp),
    );
    assert_eq!(scan.read_all(), Err(ScanError::Utf8));
}

#[test]
fn repeated_values_accumulate_packed_or_not() {
    let packed: Vec<u8> = [1u64, 300, 2]
        .into_iter()
        .flat_map(serialize_base128_varint)
        .collect();
    let input = [varint_field(1, 5), delimited_field(1, &packed), varint_field(1, 6)].concat();
    let scan = Scan::new(
        parse(&input),
        two_fields(SaveRepeated::<Varint<u64>>::new(), NoOp),
    );
    assert_eq!(scan.read_all(), Ok((vec![5, 1, 300, 2, 6], ())));

    let scan = Scan::new(
        parse(&input),
        two_fields(EmitRepeated::<Varint<u64>>::new(), EmitScalar::<Varint<u64>>::new()),
    );
    assert_eq!(scan.read_all(), Ok((vec![5, 1, 300, 2, 6], None)));

    // A packed value cut short.
    let input = delimited_field(1, &[0x80]);
    let scan = Scan::new(
        parse(&input),
        two_fields(SaveRepeated::<Varint<u64>>::new(), NoOp),
    );
    assert_eq!(
        scan.read_all(),
        Err(ScanError::Decode(DecodeError::UnexpectedEnd))
    );
}

#[test]
fn optional_presence() {
    let input = varint_field(2, 4);
    let scan = Scan::new(
        parse(&input),
        two_fields(
            SaveOptional::new(SaveNumeric::<Varint<u64>>::new()),
            SaveOptional::new(SaveNumeric::<Varint<u64>>::new()),
        ),
    );
    assert_eq!(scan.read_all(), Ok((None, Some(4))));
}

#[test]
fn embedded_messages_merge() {
    let inner_a = [varint_field(1, 1), varint_field(2, 10)].concat();
    let inner_b = varint_field(1, 2);
    let twice = [delimited_field(1, &inner_a), delimited_field(1, &inner_b)].concat();
    let once = delimited_field(1, &[inner_a.clone(), inner_b.clone()].concat());
    let make = || {
        two_fields(
            proto_scan::scan::field::Scanner::new(
                two_fields(SaveRepeated::<Varint<u64>>::new(), SaveNumeric::<Varint<u64>>::new()),
                None,
            ),
            NoOp,
        )
    };
    let expected = Ok((Some((vec![1, 2], 10)), ()));
    assert_eq!(Scan::new(parse(&twice), make()).read_all(), expected);
    assert_eq!(Scan::new(parse(&once), make()).read_all(), expected);
    // Absent message.
    assert_eq!(
        Scan::new(parse(&varint_field(2, 1)), make()).read_all(),
        Ok((None, ()))
    );
}

#[test]
fn groups_need_a_stack_and_matching_ends() {
    let inner = varint_field(1, 42);
    let group = [tag(1, WireType::Sgroup), inner, tag(1, WireType::Egroup)].concat();
    let scanner = || {
        two_fields(
            Group::new(two_fields(SaveNumeric::<Varint<u64>>::new(), NoOp)),
            NoOp,
        )
    };
    assert_eq!(
        Scan::new(parse(&group), scanner()).read_all(),
        Err(ScanError::GroupOverflow)
    );
    assert_eq!(
        Scan::new(parse(&group), scanner())
            .with_group_stack(Vec::new())
            .read_all(),
        Ok(((42, ()), ()))
    );

    // An EGROUP for another field.
    let wrong_end = [tag(1, WireType::Sgroup), tag(3, WireType::Egroup)].concat();
    assert_eq!(
        Scan::new(parse(&wrong_end), scanner())
            .with_group_stack(Vec::new())
            .read_all(),
        Err(ScanError::GroupMismatch)
    );

    // An EGROUP outside any group, and a group that is never closed.
    assert_eq!(
        Scan::new(parse(&tag(1, WireType::Egroup)), NoOp).read_all(),
        Err(ScanError::GroupMismatch)
    );
    assert_eq!(
        Scan::new(parse(&tag(1, WireType::Sgroup)), NoOp)
            .with_group_stack(Vec::new())
            .read_all(),
        Err(ScanError::GroupMismatch)
    );
}

#[test]
fn skipped_nested_groups_balance_the_stack() {
    let input = [
        tag(5, WireType::Sgroup),
        tag(6, WireType::Sgroup),
        varint_field(1, 1),
        tag(6, WireType::Egroup),
        tag(5, WireType::Egroup),
        varint_field(1, 2),
    ]
    .concat();
    let scan = Scan::new(
        parse(&input),
        two_fields(SaveRepeated::<Varint<u64>>::new(), NoOp),
    )
    .with_group_stack(ArrayVec::<u32, 1>::new());
    assert_eq!(scan.read_all(), Err(ScanError::GroupOverflow));
    let scan = Scan::new(
        parse(&input),
        two_fields(SaveRepeated::<Varint<u64>>::new(), NoOp),
    )
    .with_group_stack(Vec::new());
    assert_eq!(scan.read_all(), Ok((vec![2], ())));
}

#[test]
fn group_stacks() {
    let mut one = single_slot_stack();
    assert!(GroupStack::push(&mut one, 3).is_ok());
    assert!(GroupStack::push(&mut one, 4).is_err());
    assert!(GroupStack::pop(&mut one, 4).is_err());
    assert!(GroupStack::pop(&mut one, 3).is_err());
    assert!(GroupStack::push(&mut one, 5).is_ok());
    assert!(GroupStack::pop(&mut one, 5).is_ok());

    let mut none = ();
    assert!(GroupStack::push(&mut none, 1).is_err());
    assert!(GroupStack::pop(&mut none, 1).is_err());

    let mut v: Vec<u32> = Vec::new();
    assert!(GroupStack::push(&mut v, 1).is_ok());
    assert!(GroupStack::push(&mut v, 2).is_ok());
    assert!(GroupStack::pop(&mut v, 2).is_ok());
    assert!(GroupStack::pop(&mut v, 1).is_ok());
    assert!(GroupStack::pop(&mut v, 1).is_err());
}

#[test]
fn write_to_destinations_and_reset() {
    let input = [varint_field(1, 8), delimited_field(2, b"xyz")].concat();
    let mut number = 1u64;
    let mut text = "";
    {
        let scan = Scan::new(
            parse(&input),
            two_fields(
                <Write<_> as IntoScanner<Varint<u64>>>::into_scanner(Write(&mut number)),
                <Write<_> as IntoScanner<str>>::into_scanner(Write(&mut text)),
            ),
        );
        assert_eq!(scan.read_all(), Ok(((), ())));
    }
    assert_eq!(number, 8);
    assert_eq!(text, "xyz");

    let mut restore = RestoreOnReset::new(&mut number);
    restore.save_from(9);
    restore.save_from(10);
    restore.reset();
    drop(restore);
    assert_eq!(number, 9);

    let mut values = vec![1u32];
    {
        let scanner = <Write<_> as IntoScanner<Repeated<Varint<u32>>>>::into_scanner(Write(
            &mut values,
        ));
        let mut entry = two_fields(scanner.into_resettable(), NoOp);
        let input = varint_field(1, 2);
        let mut events = parse(&input);
        let mut stack = ();
        assert!(matches!(
            next_event(&mut events, &mut entry, &mut stack),
            Some(Ok(()))
        ));
        let (mut resettable, _) = entry.into_parts();
        resettable.reset();
    }
    assert_eq!(values, vec![1]);

    let mut values = vec![1u32];
    {
        let scanner: WriteRepeated<Varint<u32>, &mut Vec<u32>> =
            <Write<_> as IntoScanner<Repeated<Varint<u32>>>>::into_scanner(Write(&mut values));
        let input = varint_field(1, 2);
        let scan = Scan::new(parse(&input), two_fields(scanner, NoOp));
        assert_eq!(scan.read_all(), Ok(((), ())));
    }
    assert_eq!(values, vec![1, 2]);
}

#[test]
fn resetting_saved_values() {
    let input = varint_field(1, 8);
    let mut scanner = two_fields(SaveNumeric::<Varint<u64>>::new(), NoOp);
    {
        let mut events = parse(&input);
        let mut stack = ();
        assert!(matches!(
            next_event(&mut events, &mut scanner, &mut stack),
            Some(Ok(()))
        ));
    }
    let (mut key, _) = scanner.into_parts();
    key.reset();
    assert_eq!(key.into_scan_output(), 0);
}

#[test]
fn map_value_lookup() {
    // map<string, int32> with entries "a" -> 1, "b" -> 2, "a" -> 3.
    let entry = |k: &str, v: u64| {
        delimited_field(3, &[delimited_field(1, k.as_bytes()), varint_field(2, v)].concat())
    };
    let input = [entry("a", 1), entry("b", 2), entry("a", 3)].concat();
    let found = <SaveMapValue<_, _> as IntoScanner<ProtoMap<str, Varint<i32>>>>::into_scanner(
        Save::map_value("a", Save),
    );
    let outer = ThirdField(found);
    assert_eq!(Scan::new(parse(&input), outer).read_all(), Ok(Some(3)));

    let missing = <SaveMapValue<_, _> as IntoScanner<ProtoMap<str, Varint<i32>>>>::into_scanner(
        Save::map_value("c", Save),
    );
    assert_eq!(Scan::new(parse(&input), ThirdField(missing)).read_all(), Ok(None));

    let bytes_key = <SaveMapValue<_, _> as IntoScanner<ProtoMap<str, Varint<i32>>>>::into_scanner(
        Save::map_value("b", Save).skip_keys_utf8_validation(),
    );
    assert_eq!(Scan::new(parse(&input), ThirdField(bytes_key)).read_all(), Ok(Some(2)));
}

#[test]
fn repeated_messages_saved_in_order() {
    let entry = |k: u64, v: u64| {
        delimited_field(1, &[varint_field(1, k), varint_field(2, v)].concat())
    };
    let input = [entry(1, 10), entry(2, 20)].concat();
    let message = MapEntry::<Varint<u64>, Varint<u64>>::scanner()
        .key(Save)
        .value(Save);
    let repeated = <_ as IntoScanner<Repeated<MapEntry<Varint<u64>, Varint<u64>>>>>::into_scanner(
        message.repeat_by(SaveCloned),
    );
    let scan = Scan::new(parse(&input), two_fields(repeated, NoOp));
    assert_eq!(scan.read_all(), Ok((vec![(1, 10), (2, 20)], ())));
}

#[test]
fn event_reader_read_all_counts_events() {
    let input = [
        varint_field(1, 1),
        delimited_field(2, b"ab"),
        tag(3, WireType::Sgroup),
        tag(3, WireType::Egroup),
    ]
    .concat();
    let counter = EventCounter::default();
    assert_eq!(EventReader::new(&input).read_all(counter), Ok([1, 1, 1, 1]));
    let truncated = [tag(1, WireType::I32), vec![1]].concat();
    assert_eq!(
        EventReader::new(&truncated).read_all(EventCounter::default()),
        Err(DecodeError::UnexpectedEnd)
    );
}

#[test]
fn whole_map_saved_last_entry_wins() {
    let entry = |k: &str, v: u64| {
        delimited_field(3, &[delimited_field(1, k.as_bytes()), varint_field(2, v)].concat())
    };
    let input = [entry("a", 1), entry("b", 2), entry("a", 3), varint_field(4, 9)].concat();
    let scanner = <SaveMap<Save> as IntoScanner<ProtoMap<str, Varint<i64>>>>::into_scanner(
        Save::with_value(Save),
    );
    let expected: HashMap<&str, i64> = [("a", 3), ("b", 2)].into_iter().collect();
    assert_eq!(Scan::new(parse(&input), ThirdField(scanner)).read_all(), Ok(expected));

    // An entry without a key is saved under the default key.
    let keyless = delimited_field(3, &varint_field(2, 5));
    let scanner = <Save as IntoScanner<ProtoMap<Varint<u32>, Varint<u64>>>>::into_scanner(Save);
    let expected: HashMap<u32, u64> = [(0, 5)].into_iter().collect();
    assert_eq!(Scan::new(parse(&keyless), ThirdField(scanner)).read_all(), Ok(expected));
}

#[test]
fn whole_map_values_scanned_by_value_scanner() {
    // map<int32, bytes>.
    let entry = |k: u64, v: &[u8]| {
        delimited_field(3, &[varint_field(1, k), delimited_field(2, v)].concat())
    };
    let input = [entry(7, b"xy"), entry(8, &[0xff])].concat();
    let scanner = <SaveMap<Save> as IntoScanner<ProtoMap<Varint<i32>, [u8]>>>::into_scanner(
        SaveMap::with_value(Save),
    );
    let expected: HashMap<i32, &[u8]> = [(7, &b"xy"[..]), (8, &[0xffu8][..])].into_iter().collect();
    assert_eq!(Scan::new(parse(&input), ThirdField(scanner)).read_all(), Ok(expected));

    // A value of the wrong wire type is an error.
    let bad = delimited_field(3, &[varint_field(1, 1), varint_field(2, 1)].concat());
    let scanner = <SaveMap<Save> as IntoScanner<ProtoMap<Varint<i32>, [u8]>>>::into_scanner(
        SaveMap::with_value(Save),
    );
    assert_eq!(
        Scan::new(parse(&bad), ThirdField(scanner)).read_all(),
        Err(ScanError::WrongWireType)
    );
}

#[test]
fn map_values_that_are_messages() {
    // map<int32, Pair> where Pair has two uint64 fields.
    let pair = |x: u64| [varint_field(1, x), varint_field(2, x + 1)].concat();
    let entry = |k: u64, v: &[u8]| {
        delimited_field(3, &[varint_field(1, k), delimited_field(2, v)].concat())
    };
    let input = [entry(7, &pair(1)), entry(8, &pair(4)), entry(7, &pair(10))].concat();
    let value = || {
        MapEntry::<Varint<u64>, Varint<u64>>::scanner()
            .key(Save)
            .value(Save)
    };
    let scanner = <SaveMap<_> as IntoScanner<
        ProtoMap<Varint<i32>, Option<Message<MapEntry<Varint<u64>, Varint<u64>>>>>,
    >>::into_scanner(SaveMap::with_value(value()));
    let expected: HashMap<i32, Option<(u64, u64)>> =
        [(7, Some((10, 11))), (8, Some((4, 5)))].into_iter().collect();
    assert_eq!(Scan::new(parse(&input), ThirdField(scanner)).read_all(), Ok(expected));

    let found = <SaveMapValue<_, _> as IntoScanner<
        ProtoMap<Varint<i32>, Option<Message<MapEntry<Varint<u64>, Varint<u64>>>>>,
    >>::into_scanner(Save::map_value(8i32, value()));
    assert_eq!(
        Scan::new(parse(&input), ThirdField(found)).read_all(),
        Ok(Some(Some((4, 5))))
    );
}

#[test]
fn whole_map_reset_empties_it() {
    let input = delimited_field(3, &[varint_field(1, 1), varint_field(2, 2)].concat());
    let mut scanner = ThirdField(
        <Save as IntoScanner<ProtoMap<Varint<u64>, Varint<u64>>>>::into_scanner(Save),
    );
    {
        let mut events = parse(&input);
        let mut stack = ();
        assert!(matches!(
            next_event(&mut events, &mut scanner, &mut stack),
            Some(Ok(()))
        ));
    }
    let ThirdField(mut map) = scanner;
    map.reset();
    assert_eq!(map.into_scan_output(), HashMap::new());
}

#[test]
fn packed_size_hint_bounds_the_count() {
    let bytes = [1u8, 2, 3, 4, 5, 6, 7, 8, 9, 10, 11];
    let iter = NumericIter::<WireVarint>::new(&bytes);
    assert_eq!(iter.size_hint(), (1, Some(11)));

    let bytes = [0u8; 9];
    let mut iter = NumericIter::<WireI32>::new(&bytes);
    assert_eq!(iter.size_hint(), (2, Some(3)));
    assert_eq!(iter.next(), Some(Ok(0)));
    assert_eq!(iter.size_hint(), (1, Some(2)));

    let empty: [u8; 0] = [];
    assert_eq!(NumericIter::<WireVarint>::new(&empty).size_hint(), (0, Some(0)));
}

#[test]
fn packed_iterator_ends_after_an_error() {
    // Five bytes of packed fixed32: one value, then a value cut short.
    let bytes = [1u8, 0, 0, 0, 9];
    let mut iter = NumericIter::<WireI32>::new(&bytes);
    assert_eq!(iter.size_hint(), (1, Some(2)));
    assert_eq!(iter.next(), Some(Ok(1)));
    assert_eq!(iter.next(), Some(Err(DecodeError::UnexpectedEnd)));
    assert_eq!(iter.next(), None);
    assert_eq!(iter.size_hint(), (0, Some(0)));
}

#[test]
fn repeated_messages_folded() {
    let entry = |k: u64, v: u64| {
        delimited_field(1, &[varint_field(1, k), varint_field(2, v)].concat())
    };
    let summed = || {
        let message = MapEntry::<Varint<u64>, Varint<u64>>::scanner()
            .key(Save)
            .value(Save);
        <_ as IntoScanner<Repeated<MapEntry<Varint<u64>, Varint<u64>>>>>::into_scanner(
            message.repeat_by(Fold::new(|acc: &mut (u64, u64), next: (u64, u64)| {
                acc.0 += next.0;
                acc.1 += next.1;
            })),
        )
    };
    let input = [entry(1, 10), entry(2, 20), entry(3, 30)].concat();
    let scan = Scan::new(parse(&input), two_fields(summed(), NoOp));
    assert_eq!(scan.read_all(), Ok((Some((6, 60)), ())));

    let one = entry(4, 40);
    let scan = Scan::new(parse(&one), two_fields(summed(), NoOp));
    assert_eq!(scan.read_all(), Ok((Some((4, 40)), ())));

    let none = varint_field(2, 1);
    let scan = Scan::new(parse(&none), two_fields(summed(), NoOp));
    assert_eq!(scan.read_all(), Ok((None, ())));

    // An occurrence that fails to scan is an error.
    let bad = [entry(1, 10), delimited_field(1, &delimited_field(1, b"x"))].concat();
    let scan = Scan::new(parse(&bad), two_fields(summed(), NoOp));
    assert_eq!(scan.read_all(), Err(ScanError::WrongWireType));
}

#[test]
fn repeated_messages_written_to_destination() {
    let entry = |k: u64, v: u64| {
        delimited_field(1, &[varint_field(1, k), varint_field(2, v)].concat())
    };
    let input = [entry(1, 10), entry(2, 20)].concat();
    let mut saved = vec![(0u64, 0u64)];
    {
        let message = MapEntry::<Varint<u64>, Varint<u64>>::scanner()
            .key(Save)
            .value(Save);
        let scanner = <_ as IntoScanner<Repeated<MapEntry<Varint<u64>, Varint<u64>>>>>::into_scanner(
            message.repeat_by(WriteCloned(&mut saved)),
        );
        let scan = Scan::new(parse(&input), two_fields(scanner, NoOp));
        assert_eq!(scan.read_all(), Ok(((), ())));
    }
    assert_eq!(saved, vec![(0, 0), (1, 10), (2, 20)]);
}

#[test]
fn map_value_lookup_with_owned_key() {
    let entry = |k: &str, v: u64| {
        delimited_field(3, &[delimited_field(1, k.as_bytes()), varint_field(2, v)].concat())
    };
    let input = [entry("key", 1), entry("other", 2)].concat();
    let found = <SaveMapValue<_, _> as IntoScanner<ProtoMap<str, Varint<i32>>>>::into_scanner(
        Save::map_value(String::from("other"), Save),
    );
    assert_eq!(Scan::new(parse(&input), ThirdField(found)).read_all(), Ok(Some(2)));
    let found = <SaveMapValue<_, _> as IntoScanner<ProtoMap<str, Varint<i32>>>>::into_scanner(
        Save::map_value(String::from("key"), Save).skip_keys_utf8_validation(),
    );
    assert_eq!(Scan::new(parse(&input), ThirdField(found)).read_all(), Ok(Some(1)));
}

#[test]
fn packed_contents_shorter_than_declared() {
    // A packed fixed32 field declared 8 bytes long over the 4 bytes of one value.
    let input = [tag(1, WireType::LengthDelimited), vec![8, 7, 0, 0, 0]].concat();
    let mut scanner = two_fields(SaveRepeated::<Fixed<u32>>::new(), NoOp);
    {
        let mut events = parse(&input);
        let mut stack = ();
        assert!(matches!(
            next_event(&mut events, &mut scanner, &mut stack),
            Some(Err(ScanError::Decode(DecodeError::UnexpectedEnd)))
        ));
    }
    let (saved, _) = scanner.into_parts();
    assert_eq!(saved.into_scan_output(), vec![7]);

    let scan = Scan::new(parse(&input), two_fields(EmitRepeated::<Fixed<u32>>::new(), NoOp));
    assert_eq!(scan.read_all(), Err(ScanError::Decode(DecodeError::UnexpectedEnd)));
}
