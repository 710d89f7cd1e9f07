# proto_scan

Reads data out of protocol buffer messages as a sequence of events, one tag
and its data at a time, without decoding the message into a data structure
first. The library works on a message held in memory as a byte slice. Its
functions are verified with Verus against contracts stated over mathematical
models of the bytes they read; the few calls into `core` and `arrayvec` that
it makes go through small trusted wrappers whose contracts are stated next to
them.

## Layout

- `src/wire`: the binary format. Varints (`serialize_base128_varint`,
  `parse_base128_varint`), tags, wire types, and `parse`, an event reader
  whose steps are specified by `spec_next_event`.
- `src/scan`: scanners. A `Scan` hands each event to a `ScanCallbacks`
  implementation whose effect is a spec function of its abstract state;
  `Scan::read_all` is proved to produce what `spec_scan_message` gives.
  `scan/field` holds the field scanners (`Save`, `Write`, `NoOp`, `Group`,
  maps, repeated and embedded messages), `scan/encoding` the scalar
  encodings, `scan/group` nested groups and the stacks that bound them.
- `src/read`: reading from an in-memory byte slice.
- `app/`: reading a message from an `std::io::Read` stream into memory and
  handing it to the library; this stays outside the verified library.

The laws of the format (varint and tag round trips, zigzag, what merging two
occurrences of an embedded message means) are public proof functions next to
the definitions they speak of.
