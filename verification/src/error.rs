use vstd::prelude::*;
use vstd::string::StringExecFns;
use crate::text::{decimal, push_decimal};

verus! {

/// Why a text could not be decoded.
#[derive(Debug, Clone, Copy, PartialEq, Eq, Structural)]
pub enum FromHexError {
    /// A byte that is no hex digit (`0`-`9`, `a`-`f`, `A`-`F`) stands at
    /// `index`, counted from zero; `c` is that byte as a character.
    InvalidHexCharacter { c: char, index: usize },
    /// The text has an odd number of bytes, so it cannot be split into pairs.
    OddLength,
    /// The text is of even length, but half of it is not the size of the
    /// destination it is decoded into.
    InvalidStringLength,
}

/// The short name of the error `e`.
pub open spec fn description_text(e: FromHexError) -> Seq<char> {
    match e {
        FromHexError::InvalidHexCharacter { .. } => "invalid character"@,
        FromHexError::OddLength => "odd number of digits"@,
        FromHexError::InvalidStringLength => "invalid string length"@,
    }
}

/// The sentence that tells a reader of the error `e`: for an invalid
/// character the character itself, between quotes, and its position in
/// decimal.
pub open spec fn message_text(e: FromHexError) -> Seq<char> {
    match e {
        FromHexError::InvalidHexCharacter { c, index } => "Invalid character '"@.push(c)
            + "' at position "@ + decimal(index as nat),
        FromHexError::OddLength => "Odd number of digits"@,
        FromHexError::InvalidStringLength => "Invalid string length"@,
    }
}

impl FromHexError {
    /// The short name of the error, the same for every invalid character.
    pub fn description(&self) -> (r: &'static str)
        ensures
            r@ == description_text(*self),
    {
        match *self {
            FromHexError::InvalidHexCharacter { .. } => "invalid character",
            FromHexError::OddLength => "odd number of digits",
            FromHexError::InvalidStringLength => "invalid string length",
        }
    }

    /// The error as a sentence for a reader.
    pub fn message(&self) -> (r: String)
        ensures
            r@ == message_text(*self),
    {
        match *self {
            FromHexError::InvalidHexCharacter { c, index } => {
                let mut out = String::from_str("Invalid character '");
                out.push(c);
                out.append("' at position ");
                push_decimal(&mut out, index);
                out
            },
            FromHexError::OddLength => String::from_str("Odd number of digits"),
            FromHexError::InvalidStringLength => String::from_str("Invalid string length"),
        }
    }
}

} // verus!
