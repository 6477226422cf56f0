//! A 20-byte account address: derived from a public key with BLAKE3's
//! extendable output, written as upper-case hex, read back from hex of
//! either case, and compared in constant time.

pub mod address;
pub mod hex;

pub use address::{Address, ParseError, LENGTH};
