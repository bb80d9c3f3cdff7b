//! Encoding bytes as hexadecimal text and decoding such text back to bytes.
//!
//! `encode` and `encode_upper` turn a byte slice into a `String` of two hex
//! digits per byte; `decode` and `decode_to_slice` check a text strictly and
//! give the bytes back. Every function carries a contract over the
//! sequences of bytes and characters involved.

pub mod text;
pub mod error;
pub mod digit;
pub mod decode;
pub mod encode;
pub mod laws;

pub use crate::error::FromHexError;
pub use crate::digit::val;
pub use crate::decode::{decode, decode_to_slice, FromHex};
pub use crate::encode::{encode, encode_upper, encode_to_iter, BytesToHexChars, ToHex};
