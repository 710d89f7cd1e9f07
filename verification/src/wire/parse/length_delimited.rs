use vstd::prelude::*;

use core::convert::Infallible;

use crate::decode_error::DecodeError;
use crate::read::{Read, ReadTypes};
use crate::wire::parse::{
    DelimitedView, EventReader, LimitReader, NumericIter, ParseEventReader, spec_delimited_view,
};
use crate::wire::wire_type::NumericWireType;

verus! {

/// The read types of the input that a delimited field is read from.
pub trait DelimitedTypes {
    /// The input's read types.
    type ReadTypes: ReadTypes;
}

impl<'a> DelimitedTypes for LengthDelimitedImpl<'a> {
    type ReadTypes = &'a [u8];
}

/// Accessor for the contents of a length-delimited field.
///
/// Length-delimited fields encode raw byte sequences (`bytes` or `string`
/// fields), embedded messages, and packed repeated numeric fields. This trait
/// interprets the contents as one of those.
pub trait LengthDelimited<'a>: DelimitedTypes + Sized {
    /// The contents the input holds and the declared length.
    spec fn contents(&self) -> DelimitedView;

    /// Returns the declared number of bytes in the field.
    fn len(&self) -> (r: u32)
        ensures
            r == self.contents().1,
    ;

    /// Whether the field is declared empty.
    fn is_empty(&self) -> (r: bool)
        ensures
            r == (self.contents().1 == 0),
    ;

    /// Reads the contents of the field as bytes.
    ///
    /// Fails with `UnexpectedEnd` if the input ends before the declared
    /// length.
    fn into_bytes(self) -> (r: Result<&'a [u8], DecodeError<Infallible>>)
        ensures
            self.contents().0.len() == self.contents().1 ==> (r matches Ok(b) && b@
                == self.contents().0),
            self.contents().0.len() != self.contents().1 ==> r == Err::<
                &'a [u8],
                DecodeError<Infallible>,
            >(DecodeError::UnexpectedEnd),
    ;

    /// Interprets the contents of the field as packed values of wire type `W`.
    fn into_packed<W: NumericWireType>(self) -> (r: NumericIter<'a, W>)
        ensures
            r.rest() == self.contents().0,
    ;

    /// Reads the contents of the field as a sequence of events.
    fn into_events(self) -> (r: EventReader<'a>)
        ensures
            r.input() == self.contents().0,
            r.pending() == 0,
    ;
}

/// The contents of a length-delimited field read from in-memory input.
pub struct LengthDelimitedImpl<'a> {
    reader: LimitReader<&'a [u8]>,
}

impl<'a> View for LengthDelimitedImpl<'a> {
    type V = DelimitedView;

    closed spec fn view(&self) -> DelimitedView {
        spec_delimited_view(self.reader.inner()@, self.reader.spec_remaining())
    }
}

impl<'a> LengthDelimitedImpl<'a> {
    /// The field whose contents begin at the front of `reader` and whose
    /// declared length is `reader`'s limit.
    pub fn new(reader: LimitReader<&'a [u8]>) -> (r: Self)
        ensures
            r@ == spec_delimited_view(reader.inner()@, reader.spec_remaining()),
    {
        Self { reader }
    }

    /// The number of bytes of the contents that the input holds.
    pub fn available_len(&self) -> (r: usize)
        ensures
            r == self@.0.len(),
    {
        self.available().len()
    }

    /// The contents that the input holds.
    fn available(&self) -> (r: &'a [u8])
        ensures
            r@ == self@.0,
    {
        let inner = self.reader.remaining();
        let rest: &'a [u8] = *self.reader.inner_ref();
        if (inner as usize) < rest.len() {
            let (head, _) = rest.split_at(inner as usize);
            head
        } else {
            assert(rest@.take(rest@.len() as int) =~= rest@);
            rest
        }
    }
}

impl<'a> LengthDelimited<'a> for LengthDelimitedImpl<'a> {
    open spec fn contents(&self) -> DelimitedView {
        self@
    }

    fn len(&self) -> (r: u32) {
        self.reader.remaining()
    }

    fn is_empty(&self) -> (r: bool) {
        self.len() == 0
    }

    fn into_bytes(self) -> (r: Result<&'a [u8], DecodeError<Infallible>>) {
        let mut reader = self.reader;
        let remaining = reader.remaining();
        let bytes = match reader.read(remaining) {
            Ok(b) => b,
            Err(_) => return Err(DecodeError::UnexpectedEnd),
        };
        if bytes.len() != remaining as usize {
            return Err(DecodeError::UnexpectedEnd);
        }
        Ok(bytes)
    }

    fn into_packed<W: NumericWireType>(self) -> (r: NumericIter<'a, W>) {
        NumericIter::new(self.available())
    }

    fn into_events(self) -> (r: EventReader<'a>) {
        EventReader::new(self.available())
    }
}

} // verus!
