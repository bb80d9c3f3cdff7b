use vstd::prelude::*;
use crate::error::FromHexError;

verus! {

/// The byte `'0'`.
pub const DIGIT_ZERO: u8 = 0x30;

/// The byte `'9'`.
pub const DIGIT_NINE: u8 = 0x39;

/// The byte `'A'`.
pub const UPPER_A: u8 = 0x41;

/// The byte `'F'`.
pub const UPPER_F: u8 = 0x46;

/// The byte `'a'`.
pub const LOWER_A: u8 = 0x61;

/// The byte `'f'`.
pub const LOWER_F: u8 = 0x66;

/// Whether the byte `c` is one of the 22 hex digits.
pub open spec fn is_hex_digit(c: u8) -> bool {
    ||| DIGIT_ZERO <= c <= DIGIT_NINE
    ||| LOWER_A <= c <= LOWER_F
    ||| UPPER_A <= c <= UPPER_F
}

/// The four-bit value of the hex digit `c`; 0 where `c` is no hex digit.
pub open spec fn digit_value(c: u8) -> u8 {
    if DIGIT_ZERO <= c <= DIGIT_NINE {
        (c - DIGIT_ZERO) as u8
    } else if LOWER_A <= c <= LOWER_F {
        (c - LOWER_A + 10) as u8
    } else if UPPER_A <= c <= UPPER_F {
        (c - UPPER_A + 10) as u8
    } else {
        0
    }
}

/// What `val` returns for the byte `c` found at position `idx`.
pub open spec fn val_spec(c: u8, idx: usize) -> Result<u8, FromHexError> {
    if is_hex_digit(c) {
        Ok(digit_value(c))
    } else {
        Err(FromHexError::InvalidHexCharacter { c: c as char, index: idx })
    }
}

/// Maps one hex digit to its value, or reports it as invalid at `idx`.
pub fn val(c: u8, idx: usize) -> (r: Result<u8, FromHexError>)
    ensures
        r == val_spec(c, idx),
{
    match c {
        UPPER_A..=UPPER_F => Ok(c - UPPER_A + 10),
        LOWER_A..=LOWER_F => Ok(c - LOWER_A + 10),
        DIGIT_ZERO..=DIGIT_NINE => Ok(c - DIGIT_ZERO),
        _ => Err(FromHexError::InvalidHexCharacter { c: c as char, index: idx }),
    }
}

} // verus!
