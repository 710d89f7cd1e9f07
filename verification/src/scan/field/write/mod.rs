//! Scanners that write what they read to destinations of the caller's.
use vstd::prelude::*;

pub mod bytes;
pub mod numeric;
pub mod restore;

pub use bytes::{PushDecoded, WriteBytes, WriteDecoded, WriteRepeatedBytes};
pub use numeric::{WriteNumeric, WriteRepeatedNumeric};
pub use restore::{RestoreLenOnReset, RestoreOnReset};

use crate::scan::IntoScanner;
use crate::scan::encoding::Encoding;
use crate::scan::field::save::bytes::DecodeFromBytes;
use crate::scan::field::{PushTarget, Repeated};
use crate::scan::save_from::SaveFrom;

verus! {

/// Produces scanners that write each value read to the wrapped destination.
pub struct Write<T>(pub T);

/// Scanner that appends the decoded values of a repeated numeric field to a
/// destination (another name for [`WriteRepeatedNumeric`]).
pub type WriteRepeated<E, D> = WriteRepeatedNumeric<E, D>;

impl<'a, 't, E: Encoding> IntoScanner<'a, E> for Write<&'t mut E::Repr> {
    type Scanner = WriteNumeric<E, &'t mut E::Repr>;

    open spec fn spec_scanner(&self) -> E::Repr {
        *self.0
    }

    fn into_scanner(self) -> (r: WriteNumeric<E, &'t mut E::Repr>) {
        WriteNumeric::new(self.0)
    }
}

impl<'a, E: Encoding, D: PushTarget<E::Repr>> IntoScanner<'a, Repeated<E>> for Write<D> {
    type Scanner = WriteRepeatedNumeric<E, D>;

    open spec fn spec_scanner(&self) -> D::Model {
        self.0.model()
    }

    fn into_scanner(self) -> (r: WriteRepeatedNumeric<E, D>) {
        WriteRepeatedNumeric::new(self.0)
    }
}

impl<'a, D: WriteDecoded<'a, str>> IntoScanner<'a, str> for Write<D> {
    type Scanner = WriteBytes<'a, str, D>;

    open spec fn spec_scanner(&self) -> D::Model {
        self.0.model()
    }

    fn into_scanner(self) -> (r: WriteBytes<'a, str, D>) {
        WriteBytes::new(self.0)
    }
}

impl<'a, D: WriteDecoded<'a, [u8]>> IntoScanner<'a, [u8]> for Write<D> {
    type Scanner = WriteBytes<'a, [u8], D>;

    open spec fn spec_scanner(&self) -> D::Model {
        self.0.model()
    }

    fn into_scanner(self) -> (r: WriteBytes<'a, [u8], D>) {
        WriteBytes::new(self.0)
    }
}

impl<'a, D: PushDecoded<'a, str>> IntoScanner<'a, Repeated<str>> for Write<D> {
    type Scanner = WriteRepeatedBytes<'a, str, D>;

    open spec fn spec_scanner(&self) -> D::Model {
        self.0.model()
    }

    fn into_scanner(self) -> (r: WriteRepeatedBytes<'a, str, D>) {
        WriteRepeatedBytes::new(self.0)
    }
}

impl<'a, D: PushDecoded<'a, [u8]>> IntoScanner<'a, Repeated<[u8]>> for Write<D> {
    type Scanner = WriteRepeatedBytes<'a, [u8], D>;

    open spec fn spec_scanner(&self) -> D::Model {
        self.0.model()
    }

    fn into_scanner(self) -> (r: WriteRepeatedBytes<'a, [u8], D>) {
        WriteRepeatedBytes::new(self.0)
    }
}

} // verus!
