pub mod decode_error;
pub mod read;
pub mod scan;
pub mod wire;

pub use decode_error::{DecodeError, DecodeVarintError};
