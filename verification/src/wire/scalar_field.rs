use vstd::prelude::*;

use crate::wire::numeric_field::{NumericField, spec_numeric_bytes};

verus! {

/// A scalar field value by wire type; the same data as [`NumericField`].
#[derive(Copy, Clone, Debug, PartialEq, Eq, Hash, Structural)]
pub enum ScalarField {
    Varint(u64),
    I64(u64),
    I32(u32),
}

/// The numeric field carrying the same value.
pub open spec fn spec_scalar_as_numeric(f: ScalarField) -> NumericField {
    match f {
        ScalarField::Varint(v) => NumericField::Varint(v),
        ScalarField::I64(v) => NumericField::I64(v),
        ScalarField::I32(v) => NumericField::I32(v),
    }
}

impl ScalarField {
    /// The wire encoding of the value (without its tag).
    pub fn serialize(&self) -> (r: Vec<u8>)
        ensures
            r@ == spec_numeric_bytes(spec_scalar_as_numeric(*self)),
    {
        let n = match self {
            ScalarField::Varint(v) => NumericField::Varint(*v),
            ScalarField::I64(v) => NumericField::I64(*v),
            ScalarField::I32(v) => NumericField::I32(*v),
        };
        n.serialize()
    }
}

} // verus!
