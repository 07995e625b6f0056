//! A 64-bit opaque identifier with a canonical lowercase-hexadecimal encoding
//! and a decoder that tolerates the historical integer encodings.

pub mod codec;
pub mod decimal;
pub mod hex;
pub mod id;
mod rng;

pub use codec::{decode, encode, DecodeError, Token};
pub use id::U64Id;
