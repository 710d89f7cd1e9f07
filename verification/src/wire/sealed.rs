//! Keeps [`crate::wire::wire_type::NumericWireType`] closed to the three
//! numeric wire types of the format.
use vstd::prelude::*;

use crate::wire::wire_type::{I32, I64, Varint};

verus! {

/// Implemented by the numeric wire types alone.
pub trait Sealed {}

impl Sealed for Varint {}

impl Sealed for I64 {}

impl Sealed for I32 {}

} // verus!
