use arrayvec::ArrayVec;

use proto_scan::scan::encoding::{zigzag_decode_u32, zigzag_decode_u64, Varint};
use proto_scan::scan::error::{ScanErr, ScanError};
use proto_scan::scan::field::{OnScanField, Present, Repeated, Save, Write};
use proto_scan::scan::group::{GroupDelimitedImpl, GroupModel, GroupStack, StackModel};
use proto_scan::scan::{IntoScanOutput, IntoScanner, Scan, ScanCallbacks};
use proto_scan::wire::parse::{DelimitedView, LengthDelimitedImpl};
use proto_scan::wire::{parse, serialize_base128_varint, NumericField, Tag, WireType};

#[test]
fn sint32_decode() {
    let values = [
        0,
        -1,
        1,
        -2,
        i16::MIN.into(),
        i16::MAX.into(),
        i32::MIN,
        i32::MAX,
    ];
    let values_and_encoded = values.map(|v| {
        (v, {
            let r: u32 = (v >> 31) as u32;
            let l: u32 = v as u32;
            (l << 1) ^ r
        })
    });

    for (value, encoded) in values_and_encoded {
        let decoded = zigzag_decode_u32(encoded) as i32;
        assert_eq!(decoded, value, "encoded = {encoded}");
    }
}

#[test]
fn sint64_decode() {
    let values = [
        0,
        -1,
        1,
        -2,
        i32::MIN.into(),
        i32::MAX.into(),
        i64::MIN,
        i64::MAX,
    ];
    let values_and_encoded = values.map(|v| {
        (v, {
            let r = (v >> 63) as u64;
            let l = v as u64;
            (l << 1) ^ r
        })
    });

    for (value, encoded) in values_and_encoded {
        let decoded = zigzag_decode_u64(encoded) as i64;
        assert_eq!(decoded, value, "encoded = {encoded}");
    }
}

/// Collects the varint values of field 2 and ignores everything else.
struct ScannerImpl {
    field_2: ArrayVec<u64, 2>,
}

impl<'a> ScanCallbacks<'a> for ScannerImpl {
    fn spec_on_numeric(st: (), _field: u32, _value: NumericField) -> Result<(), ScanErr> {
        Ok(st)
    }

    fn spec_on_group(st: (), _field: u32, g: GroupModel) -> Result<((), GroupModel), ScanErr> {
        Ok((st, g))
    }

    fn spec_on_length_delimited(
        st: (),
        _field: u32,
        _contents: DelimitedView,
        stack: StackModel,
    ) -> Result<((), StackModel), ScanErr> {
        Ok((st, stack))
    }

    fn lemma_on_group_progress(_st: (), _field: u32, _g: GroupModel) {}

    fn on_numeric(&mut self, field: u32, value: NumericField) -> Result<(), ScanErr> {
        if field == 2 {
            let value = match value {
                NumericField::Varint(v) => v,
                other => panic!("unexpected {other:?}"),
            };
            self.field_2.push(value);
        }
        Ok(())
    }

    fn on_group<G: GroupStack>(
        &mut self,
        _field: u32,
        _group: &mut GroupDelimitedImpl<'a>,
        _group_stack: &mut G,
    ) -> Result<(), ScanErr> {
        Ok(())
    }

    fn on_length_delimited<G: GroupStack>(
        &mut self,
        _field: u32,
        _delimited: LengthDelimitedImpl<'a>,
        _group_stack: &mut G,
    ) -> Result<(), ScanErr> {
        Ok(())
    }
}

impl IntoScanOutput for ScannerImpl {
    type ScanOutput = ArrayVec<u64, 2>;
    type State = ();

    fn state(&self) {}

    fn output_matches(_st: (), _out: ArrayVec<u64, 2>) -> bool {
        true
    }

    fn into_scan_output(self) -> Self::ScanOutput {
        self.field_2
    }
}

#[test]
fn scan_ignored_group() {
    let input = [
        Tag {
            field_number: 2,
            wire_type: WireType::Varint,
        }
        .serialized(),
        serialize_base128_varint(22),
        Tag {
            field_number: 3,
            wire_type: WireType::Sgroup,
        }
        .serialized(),
        Tag {
            field_number: 5,
            wire_type: WireType::Varint,
        }
        .serialized(),
        serialize_base128_varint(33),
        Tag {
            field_number: 3,
            wire_type: WireType::Egroup,
        }
        .serialized(),
        Tag {
            field_number: 2,
            wire_type: WireType::Varint,
        }
        .serialized(),
        serialize_base128_varint(44),
    ]
    .into_iter()
    .flatten()
    .collect::<ArrayVec<u8, 64>>();

    // With no group stack, an error is returned.
    let result = Scan::new(
        parse(input.as_slice()),
        ScannerImpl {
            field_2: ArrayVec::new(),
        },
    )
    .read_all();
    assert_eq!(result, Err(ScanError::GroupOverflow));

    // With space for a group, the values can be saved.
    let result = Scan::new(
        parse(input.as_slice()),
        ScannerImpl {
            field_2: ArrayVec::new(),
        },
    )
    .with_group_stack(ArrayVec::<_, 1>::new())
    .read_all();
    assert_eq!(result, Ok([22, 44].into()))
}

/// Hands the events of one field to a field scanner and ignores the rest.
struct Scanner<T>(u32, T);

#[derive(Debug, Default, PartialEq)]
struct ScanOutput<T>(T);

impl<'a, T: OnScanField<'a>> ScanCallbacks<'a> for Scanner<T> {
    fn spec_on_numeric(st: (), _field: u32, _value: NumericField) -> Result<(), ScanErr> {
        Ok(st)
    }

    fn spec_on_group(st: (), _field: u32, g: GroupModel) -> Result<((), GroupModel), ScanErr> {
        Ok((st, g))
    }

    fn spec_on_length_delimited(
        st: (),
        _field: u32,
        _contents: DelimitedView,
        stack: StackModel,
    ) -> Result<((), StackModel), ScanErr> {
        Ok((st, stack))
    }

    fn lemma_on_group_progress(_st: (), _field: u32, _g: GroupModel) {}

    fn on_numeric(&mut self, field: u32, value: NumericField) -> Result<(), ScanErr> {
        if field == self.0 {
            self.1.on_numeric(value)
        } else {
            Ok(())
        }
    }

    fn on_group<G: GroupStack>(
        &mut self,
        field: u32,
        group: &mut GroupDelimitedImpl<'a>,
        group_stack: &mut G,
    ) -> Result<(), ScanErr> {
        if field == self.0 {
            self.1.on_group(group, group_stack)
        } else {
            Ok(())
        }
    }

    fn on_length_delimited<G: GroupStack>(
        &mut self,
        field: u32,
        delimited: LengthDelimitedImpl<'a>,
        group_stack: &mut G,
    ) -> Result<(), ScanErr> {
        if field == self.0 {
            self.1.on_length_delimited(delimited, group_stack)
        } else {
            Ok(())
        }
    }
}

impl<T: IntoScanOutput> IntoScanOutput for Scanner<T> {
    type ScanOutput = ScanOutput<T::ScanOutput>;
    type State = ();

    fn state(&self) {}

    fn output_matches(_st: (), _out: ScanOutput<T::ScanOutput>) -> bool {
        true
    }

    fn into_scan_output(self) -> Self::ScanOutput {
        ScanOutput(self.1.into_scan_output())
    }
}

#[test]
fn scan_embedded_message() {
    // message Test1 { int32 a = 1; }
    // message Test3 { Test1 c = 3; }
    // Test1's a field (i.e., Test3's c.a field) is set to 150
    const INPUT: &[u8] = &[0x1a, 0x03, 0x08, 0x96, 0x01];

    let scanner = Scanner(
        3,
        proto_scan::scan::field::Scanner::new(
            Scanner(1, <Save as IntoScanner<Varint<i32>>>::into_scanner(Save)),
            Present,
        ),
    );

    let input = &INPUT[..];
    let scan = Scan::new(parse(input), scanner);
    let result = scan.read_all();

    assert!(matches!(result, Ok(ScanOutput(ScanOutput(150)))));
}

#[test]
fn save_from_embedded_repeated() {
    // message Test1 { repeated int32 a = 1; }
    // message Test3 { Test1 c = 3; }
    // Test1's a field (i.e., Test3's c.a field) is set to [150, 151]
    const INPUT: &[u8] = &[0x1a, 0x06, 0x08, 0x96, 0x01, 0x08, 0x97, 0x01];

    // Duplicating the input should result in multiple outputs written
    // to saved_to. That mirrors protobuf's merge semantics for embedded messages.
    for repeats in [1, 2] {
        let input = INPUT.repeat(repeats);
        let mut saved_to = vec![1, 2, 3];
        let scanner = Scanner(
            3,
            proto_scan::scan::field::Scanner::new(
                Scanner(
                    1,
                    <Write<_> as IntoScanner<Repeated<Varint<i32>>>>::into_scanner(Write(
                        &mut saved_to,
                    )),
                ),
                Present,
            ),
        );

        let input = &input[..];
        let scan = Scan::new(parse(input), scanner);
        let result = scan.read_all();

        assert!(matches!(result, Ok(ScanOutput(ScanOutput(())))));
        assert_eq!(saved_to[..3], [1, 2, 3]);
        assert_eq!(saved_to[3..], [150, 151].repeat(repeats))
    }
}
