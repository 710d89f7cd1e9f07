use core::convert::Infallible;
use proto_scan::read::ReadBytesError;
use proto_scan::wire::parse::LimitReader;
use proto_scan::wire::{
    parse, parse_base128_varint, serialize_base128_varint, LengthDelimited, NumericField,
    NumericWireType, ParseEvent, ParseEventReader, Tag, WireType, I32, Varint,
};

#[test]
fn read_from_empty() {
    let bytes = [1, 2, 3, 4].as_slice();
    let mut empty = LimitReader::new(bytes, 0);
    assert_eq!(empty.read(1), Err(ReadBytesError::UnexpectedEnd));
}

#[test]
fn short_inner() {
    let bytes = [1, 2, 3, 4].as_slice();
    let mut empty = LimitReader::new(&bytes[..], 5);
    assert_eq!(empty.read(5), Err(ReadBytesError::UnexpectedEnd));
}

#[test]
fn read_prefix() {
    let bytes = [1, 2, 3, 4].as_slice();
    let mut empty = LimitReader::new(bytes, 3);
    assert_eq!(empty.read(2), Ok(&bytes[..2]));
}

#[test]
fn read_more_than_remaining() {
    let bytes = [1, 2, 3, 4].as_slice();
    let mut empty = LimitReader::new(bytes, 3);
    assert_eq!(empty.read(5), Err(ReadBytesError::UnexpectedEnd));
}

#[test]
fn read_tag() {
    let bytes = [0x08, 0x96, 0x01];

    let tag = Tag::read_from(&mut bytes.as_slice());
    assert_eq!(
        tag,
        Ok(Tag {
            field_number: 1,
            wire_type: WireType::Varint
        })
    )
}

#[test]
fn tag_read_tag() {
    let bytes = [0x08, 0x96, 0x01];

    let tag = Tag::read_from(&mut bytes.as_slice());
    assert_eq!(
        tag,
        Ok(Tag {
            field_number: 1,
            wire_type: WireType::Varint
        })
    )
}

#[test]
fn read_i32() {
    let bytes = [61u8];

    let tag = Tag::read_from(&mut bytes.as_slice());

    assert_eq!(
        tag,
        Ok(Tag {
            field_number: 7,
            wire_type: WireType::I32
        })
    );
}

#[test]
fn varint_decode() {
    let input = [0x96, 0x01];

    let result = Varint::read_from(&mut input.as_slice());
    assert_eq!(result, Ok(150))
}

#[test]
fn i32_decode() {
    let input = [0x01, 0x02, 0x03, 0x04];

    let result = I32::read_from(&mut input.as_slice());

    assert_eq!(result, Ok(0x04030201))
}

#[test]
fn u32_inverse() {
    const VALUES: [u64; 9] = [0, 1, 8, 127, 128, 255, 256, 1848593, u32::MAX as u64];

    for value in VALUES {
        let serialized = serialize_base128_varint(value);
        let items: Vec<Result<u8, Infallible>> = serialized.iter().cloned().map(Ok).collect();
        let deserialized = parse_base128_varint::<Infallible>(&items).map(|v| v.0);
        assert_eq!(
            deserialized,
            Ok(value),
            "{value} serialized as {serialized:?}"
        );
    }
}

#[test]
fn extract_single_string() {
    // message { field string = 2; }
    let input = [0x12, 0x07, 0x74, 0x65, 0x73, 0x74, 0x69, 0x6e, 0x67];
    let input = input.as_slice();

    let mut reader = parse(input);

    let event = reader.next().unwrap();
    let length_delimited = match event.unwrap() {
        (2, ParseEvent::LengthDelimited(l)) => l,
        _ => panic!("invalid"),
    };

    assert_eq!(length_delimited.into_bytes().unwrap(), b"testing");
}

#[test]
fn drop_packed_iter_advances() {
    let input = [
        Tag {
            field_number: 1,
            wire_type: WireType::LengthDelimited,
        }
        .serialized(),
        serialize_base128_varint(3),
        [0, 1, 2].into_iter().collect(),
        Tag {
            field_number: 2,
            wire_type: WireType::I32,
        }
        .serialized(),
        NumericField::I32(0x04030201).serialize(),
    ]
    .concat();

    let read = &input[..];
    let mut parse = parse(read);

    let mut iter = match parse.next().unwrap().unwrap() {
        (field_number, ParseEvent::LengthDelimited(value)) => {
            assert_eq!(field_number, 1);
            value.into_packed::<Varint>()
        }
        (field_number, ParseEvent::Numeric(_) | ParseEvent::Group(_)) => {
            panic!("wrong event; field = {field_number:?}")
        }
    };
    assert_eq!(iter.next(), Some(Ok(0)));
    // If the iterator is dropped without exhausting it, the remaining
    // values are still skipped.
    drop(iter);

    let next = parse.next().unwrap().unwrap();
    match next {
        (field_number, ParseEvent::Numeric(numeric_field)) => {
            assert_eq!(field_number, 2);
            assert_eq!(numeric_field, NumericField::I32(0x04030201))
        }
        (field_number, ParseEvent::Group(_) | ParseEvent::LengthDelimited(_)) => {
            panic!("wrong event field {field_number:?}")
        }
    }
}

#[test]
fn drop_embedded_message_advance() {
    let input = [
        Tag {
            field_number: 1,
            wire_type: WireType::LengthDelimited,
        }
        .serialized(),
        serialize_base128_varint(4),
        // Embedded message begin
        Tag {
            field_number: 6,
            wire_type: WireType::Varint,
        }
        .serialized(),
        serialize_base128_varint(1),
        Tag {
            field_number: 7,
            wire_type: WireType::Varint,
        }
        .serialized(),
        serialize_base128_varint(2),
        // Embedded message end
        Tag {
            field_number: 2,
            wire_type: WireType::I32,
        }
        .serialized(),
        NumericField::I32(0x04030201).serialize(),
    ]
    .concat();

    let read = &input[..];
    let mut parse = parse(read);

    let embedded = match parse.next().unwrap().unwrap() {
        (field_number, ParseEvent::LengthDelimited(value)) => {
            assert_eq!(field_number, 1);
            value
        }
        (field_number, ParseEvent::Numeric(_) | ParseEvent::Group(_)) => {
            panic!("wrong event; field = {field_number:?}")
        }
    };
    {
        let mut embedded_events = embedded.into_events();
        match embedded_events.next().unwrap().unwrap() {
            (6, ParseEvent::Numeric(NumericField::Varint(1))) => {}
            (
                field_number,
                ParseEvent::Numeric(_) | ParseEvent::Group(_) | ParseEvent::LengthDelimited(_),
            ) => {
                panic!("wrong event field {field_number:?}")
            }
        }

        // If the iterator is dropped without exhausting it, the remaining
        // values are still skipped.
        drop(embedded_events);
    }

    let next = parse.next().unwrap().unwrap();
    match next {
        (field_number, ParseEvent::Numeric(numeric_field)) => {
            assert_eq!(field_number, 2);
            assert_eq!(numeric_field, NumericField::I32(0x04030201))
        }
        (field_number, ParseEvent::Group(_) | ParseEvent::LengthDelimited(_)) => {
            panic!("wrong event field {field_number:?}")
        }
    }
}
