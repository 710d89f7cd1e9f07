//! Byte sources that protobuf data is read from.
use vstd::prelude::*;

use core::convert::Infallible;

use crate::decode_error::{DecodeVarintError, lift_varint_error};
use crate::wire::{parse_varint_bytes, spec_parse_varint, spec_parse_varint_from};

pub mod count_reader;

pub use count_reader::CountReader;

verus! {

/// Error produced when reading a number of bytes.
#[derive(Copy, Clone, Debug, PartialEq, Eq, Hash)]
pub enum ReadBytesError<R> {
    /// Underlying read source error.
    Read(R),
    /// Fewer bytes than requested were available.
    UnexpectedEnd,
}

/// What a successful or failed-by-format varint read must satisfy: the result
/// is the decoding of the bytes that were ahead, and on success exactly the
/// varint's bytes were consumed.
pub open spec fn varint_read_matches<E>(
    before: Seq<u8>,
    after: Seq<u8>,
    r: Result<u64, DecodeVarintError<E>>,
) -> bool {
    match r {
        Err(DecodeVarintError::Read(_)) => true,
        _ => match spec_parse_varint(before) {
            Ok((v, n)) => r == Ok::<u64, DecodeVarintError<E>>(v) && after == before.skip(n as int),
            Err(e) => r == Err::<u64, DecodeVarintError<E>>(lift_varint_error(e)),
        },
    }
}

/// What a read of `bytes` bytes must satisfy: it succeeds exactly when that
/// many bytes are ahead, hands them out and consumes them.
pub open spec fn bytes_read_matches<E>(
    before: Seq<u8>,
    after: Seq<u8>,
    bytes: u32,
    r: Result<Seq<u8>, ReadBytesError<E>>,
) -> bool {
    match r {
        Err(ReadBytesError::Read(_)) => true,
        _ => if bytes <= before.len() {
            r == Ok::<Seq<u8>, ReadBytesError<E>>(before.take(bytes as int)) && after == before.skip(
                bytes as int,
            )
        } else {
            r == Err::<Seq<u8>, ReadBytesError<E>>(ReadBytesError::UnexpectedEnd)
        },
    }
}

/// What a skip of `bytes` bytes must satisfy.
pub open spec fn bytes_skip_matches<E>(
    before: Seq<u8>,
    after: Seq<u8>,
    bytes: u32,
    r: Result<u32, ReadBytesError<E>>,
) -> bool {
    match r {
        Err(ReadBytesError::Read(_)) => true,
        _ => if bytes <= before.len() {
            r == Ok::<u32, ReadBytesError<E>>(bytes) && after == before.skip(bytes as int)
        } else {
            r == Err::<u32, ReadBytesError<E>>(ReadBytesError::UnexpectedEnd)
        },
    }
}

/// The bytes of a read result, for stating contracts over.
pub open spec fn buffer_view<B: View<V = Seq<u8>>, E>(r: Result<B, ReadBytesError<E>>) -> Result<
    Seq<u8>,
    ReadBytesError<E>,
> {
    match r {
        Ok(b) => Ok(b@),
        Err(e) => Err(e),
    }
}

#[verifier::external_type_specification]
#[verifier::external_body]
pub struct ExUtf8Error(core::str::Utf8Error);

/// Checks `bytes` for UTF-8 with `core::str::from_utf8`.
///
/// Trusted: std documents that `from_utf8` succeeds exactly when the bytes
/// are valid UTF-8 and then returns them as a `str`; the contract states
/// that over vstd's UTF-8 model.
#[verifier::external_body]
pub(crate) fn str_from_utf8<'a>(bytes: &'a [u8]) -> (r: Result<&'a str, core::str::Utf8Error>)
    ensures
        r is Ok <==> vstd::utf8::valid_utf8(bytes@),
        r matches Ok(s) ==> s@ == vstd::utf8::decode_utf8(bytes@),
{
    core::str::from_utf8(bytes)
}

/// The types a reader works with: the error of its source and the buffers
/// it hands out.
pub trait ReadTypes {
    /// Error of the underlying source.
    type Error;
    /// The buffer type handed out.
    type Buffer: ReadBuffer;
}

impl<R: Read> ReadTypes for R {
    type Error = R::Error;
    type Buffer = R::Buffer;
}

/// A buffer of bytes handed out by a [`Read`].
pub trait ReadBuffer: View<V = Seq<u8>> + Sized {
    /// The string type the buffer converts into.
    type String: View<V = Seq<char>>;

    /// The buffer's bytes.
    fn as_bytes(&self) -> (r: &[u8])
        ensures
            r@ == self@,
    ;

    /// Converts the buffer into a string if its bytes are valid UTF-8.
    fn into_string(self) -> (r: Result<Self::String, core::str::Utf8Error>)
        ensures
            r is Ok <==> vstd::utf8::valid_utf8(self@),
            r matches Ok(s) ==> s@ == vstd::utf8::decode_utf8(self@),
    ;
}

impl<'a> ReadBuffer for &'a [u8] {
    type String = &'a str;

    fn as_bytes(&self) -> (r: &[u8]) {
        *self
    }

    fn into_string(self) -> (r: Result<&'a str, core::str::Utf8Error>) {
        str_from_utf8(self)
    }
}

/// A source of protobuf bytes.
///
/// `stream` is the sequence of bytes that remain to be read. Apart from errors
/// of the underlying source (`Read(_)`), every operation behaves as a cursor
/// over that sequence.
pub trait Read: Sized {
    /// Error of the underlying source.
    type Error;
    /// The buffer type handed out by [`Read::read`].
    type Buffer: ReadBuffer;

    /// The bytes that remain to be read.
    spec fn stream(&self) -> Seq<u8>;

    /// Whether the source is known never to fail with an error of its own.
    spec fn infallible() -> bool;

    /// Whether a failed operation is known to leave the reader as it was.
    spec fn atomic() -> bool;

    /// Reads the next protobuf varint from the stream.
    fn read_varint(&mut self) -> (r: Result<u64, DecodeVarintError<Self::Error>>)
        ensures
            varint_read_matches(old(self).stream(), final(self).stream(), r),
            Self::infallible() ==> !(r matches Err(DecodeVarintError::Read(_))),
            Self::atomic() && r is Err ==> *final(self) == *old(self),
    ;

    /// Reads the given number of bytes.
    ///
    /// If fewer than the requested number of bytes are available before the
    /// stream ends, an error is returned. Otherwise, the returned buffer
    /// contains the requested number of bytes.
    fn read(&mut self, bytes: u32) -> (r: Result<Self::Buffer, ReadBytesError<Self::Error>>)
        ensures
            bytes_read_matches(old(self).stream(), final(self).stream(), bytes, buffer_view(r)),
            Self::infallible() ==> !(r matches Err(ReadBytesError::Read(_))),
            Self::atomic() && r is Err ==> *final(self) == *old(self),
    ;

    /// Skips the given number of bytes and returns how many were skipped.
    ///
    /// If fewer than the requested number of bytes is available to be
    /// skipped, an error is returned.
    fn skip(&mut self, bytes: u32) -> (r: Result<u32, ReadBytesError<Self::Error>>)
        ensures
            bytes_skip_matches(old(self).stream(), final(self).stream(), bytes, r),
            Self::infallible() ==> !(r matches Err(ReadBytesError::Read(_))),
            Self::atomic() && r is Err ==> *final(self) == *old(self),
    ;
}

impl<'a> Read for &'a [u8] {
    type Error = Infallible;
    type Buffer = &'a [u8];

    open spec fn stream(&self) -> Seq<u8> {
        self@
    }

    open spec fn infallible() -> bool {
        true
    }

    open spec fn atomic() -> bool {
        true
    }

    fn read_varint(&mut self) -> (r: Result<u64, DecodeVarintError<Infallible>>)
        ensures
            !(r matches Err(DecodeVarintError::Read(_))),
            r is Err ==> final(self)@ == old(self)@,
    {
        match parse_varint_bytes(*self) {
            Ok((value, consumed)) => {
                proof {
                    lemma_parse_varint_len(self@);
                }
                let (_, after) = self.split_at(consumed as usize);
                *self = after;
                Ok(value)
            },
            Err(e) => {
                proof {
                    lemma_parse_varint_no_read_error(self@, 0);
                }
                Err(e)
            },
        }
    }

    fn read(&mut self, bytes: u32) -> (r: Result<&'a [u8], ReadBytesError<Infallible>>)
        ensures
            !(r matches Err(ReadBytesError::Read(_))),
            r is Err ==> final(self)@ == old(self)@,
    {
        let ghost before = self@;
        if bytes as usize > self.len() {
            assert(bytes > before.len());
            let r: Result<&'a [u8], ReadBytesError<Infallible>> = Err(ReadBytesError::UnexpectedEnd);
            assert(buffer_view(r) == Err::<Seq<u8>, ReadBytesError<Infallible>>(ReadBytesError::UnexpectedEnd));
            assert(bytes_read_matches(before, before, bytes, buffer_view(r)));
            assert(before == old(self).stream());
            return r;
        }
        let (taken, after) = self.split_at(bytes as usize);
        assert(taken@ =~= before.take(bytes as int));
        assert(after@ =~= before.skip(bytes as int));
        *self = after;
        Ok(taken)
    }

    fn skip(&mut self, bytes: u32) -> (r: Result<u32, ReadBytesError<Infallible>>)
        ensures
            !(r matches Err(ReadBytesError::Read(_))),
            r is Err ==> final(self)@ == old(self)@,
    {
        match self.read(bytes) {
            Ok(read) => {
                assert(read@.len() == bytes);
                Ok(read.len() as u32)
            },
            Err(e) => Err(e),
        }
    }
}

/// A successful varint decoding consumes between one and ten bytes of the input.
pub proof fn lemma_parse_varint_len(s: Seq<u8>)
    ensures
        spec_parse_varint(s) matches Ok((v, n)) ==> 1 <= n <= 10 && n <= s.len(),
{
    lemma_parse_varint_from_len(s, 0);
}

proof fn lemma_parse_varint_from_len(s: Seq<u8>, i: nat)
    ensures
        spec_parse_varint_from(s, i) matches Ok((v, n)) ==> i + 1 <= n <= 10 && n <= s.len(),
    decreases 10 - i,
{
    if i < 10 && i < s.len() && crate::wire::varint_continues(s[i as int]) {
        lemma_parse_varint_from_len(s, i + 1);
    }
}

/// Decoding bytes never produces an error of an underlying source.
pub proof fn lemma_parse_varint_no_read_error(s: Seq<u8>, i: nat)
    ensures
        !(spec_parse_varint_from(s, i) matches Err(DecodeVarintError::Read(_))),
    decreases 10 - i,
{
    if i < 10 && i < s.len() && crate::wire::varint_continues(s[i as int]) {
        lemma_parse_varint_no_read_error(s, i + 1);
    }
}

} // verus!
