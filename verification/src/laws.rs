use vstd::prelude::*;
use vstd::utf8::{encode_utf8, is_ascii_chars, is_ascii_chars_encode_utf8};
use crate::error::FromHexError;
use crate::digit::{is_hex_digit, digit_value};
use crate::encode::{hex_text, nibble_at, HEX_CHARS_LOWER, HEX_CHARS_UPPER};
use crate::decode::{
    all_hex, decoded_bytes, decodes_to, decodes_to_sized, is_first_invalid,
};

verus! {

/// Whether `table` holds, at each place `n` below 16, a hex digit of value
/// `n`.
pub open spec fn is_digit_table(table: Seq<u8>) -> bool {
    &&& table.len() == 16
    &&& forall|n: int|
        0 <= n < 16 ==> is_hex_digit(#[trigger] table[n]) && digit_value(table[n]) == n
}

/// Both tables of digits, the lower case one and the upper case one, hold
/// the digit of value `n` at place `n`.
pub proof fn lemma_tables_hold_digits()
    ensures
        is_digit_table(HEX_CHARS_LOWER@),
        is_digit_table(HEX_CHARS_UPPER@),
{
}

/// A byte is its high nibble shifted up by four bits, joined with its low
/// nibble.
pub proof fn lemma_nibbles_join(b: u8)
    ensures
        b >> 4 < 16,
        b & 0xf < 16,
        ((b >> 4) << 4) | (b & 0xf) == b,
{
    assert(b >> 4 < 16) by (bit_vector);
    assert(b & 0xf < 16) by (bit_vector);
    assert(((b >> 4) << 4) | (b & 0xf) == b) by (bit_vector);
}

/// The text for `bytes` written with a table of digits is ASCII, so its
/// bytes are its characters one for one, and it decodes to `bytes`.
pub proof fn lemma_round_trip_with(table: Seq<u8>, bytes: Seq<u8>)
    requires
        is_digit_table(table),
    ensures
        is_ascii_chars(hex_text(table, bytes)),
        encode_utf8(hex_text(table, bytes)).len() == 2 * bytes.len(),
        decodes_to(encode_utf8(hex_text(table, bytes)), Ok(bytes)),
{
    let text = hex_text(table, bytes);
    assert forall|k: int| 0 <= k < text.len() implies '\0' <= #[trigger] text[k] <= '\u{7f}'
        && is_hex_digit(text[k] as u8) && digit_value(text[k] as u8) == nibble_at(bytes, k) by {
        lemma_nibbles_join(bytes[k / 2]);
        let n = nibble_at(bytes, k) as int;
        assert(is_hex_digit(table[n]));
    }
    is_ascii_chars_encode_utf8(text);
    let raw = encode_utf8(text);
    assert forall|k: int| 0 <= k < raw.len() implies is_hex_digit(#[trigger] raw[k]) by {
        assert(raw[k] == text[k] as u8);
    }
    assert forall|i: int| 0 <= i < bytes.len() implies decoded_bytes(raw)[i] == bytes[i] by {
        lemma_nibbles_join(bytes[i]);
        assert(raw[2 * i] == text[2 * i] as u8);
        assert(raw[2 * i + 1] == text[2 * i + 1] as u8);
        assert(nibble_at(bytes, 2 * i) == bytes[i] >> 4);
        assert(nibble_at(bytes, 2 * i + 1) == bytes[i] & 0xf);
    }
    assert(decoded_bytes(raw) =~= bytes);
}

/// Round trip: what `encode` or `encode_upper` gives for `bytes`, taken as
/// the bytes of that text, decodes to `bytes` again.
pub proof fn lemma_round_trip(bytes: Seq<u8>)
    ensures
        is_ascii_chars(hex_text(HEX_CHARS_LOWER@, bytes)),
        is_ascii_chars(hex_text(HEX_CHARS_UPPER@, bytes)),
        decodes_to(encode_utf8(hex_text(HEX_CHARS_LOWER@, bytes)), Ok(bytes)),
        decodes_to(encode_utf8(hex_text(HEX_CHARS_UPPER@, bytes)), Ok(bytes)),
{
    lemma_tables_hold_digits();
    lemma_round_trip_with(HEX_CHARS_LOWER@, bytes);
    lemma_round_trip_with(HEX_CHARS_UPPER@, bytes);
}

/// The text for `bytes` has two characters for each byte, whatever the
/// table.
pub proof fn lemma_text_length(table: Seq<u8>, bytes: Seq<u8>)
    ensures
        hex_text(table, bytes).len() == 2 * bytes.len(),
{
}

/// The byte `c` with an upper case letter turned into the lower case one.
pub open spec fn lower_case(c: u8) -> u8 {
    if 0x41 <= c <= 0x5a {
        (c + 0x20) as u8
    } else {
        c
    }
}

/// Whether two texts differ at most in the case of their letters.
pub open spec fn same_but_case(s: Seq<u8>, t: Seq<u8>) -> bool {
    &&& s.len() == t.len()
    &&& forall|k: int| 0 <= k < s.len() ==> lower_case(#[trigger] s[k]) == lower_case(t[k])
}

/// The case of a letter changes neither whether it is a hex digit nor its
/// value.
pub proof fn lemma_case_of_digit(c: u8, d: u8)
    requires
        lower_case(c) == lower_case(d),
    ensures
        is_hex_digit(c) == is_hex_digit(d),
        digit_value(c) == digit_value(d),
{
}

/// Case mixing: two texts that differ only in the case of their letters are
/// both valid or both invalid, with the first invalid byte at the same
/// place, and where they are valid they stand for the same bytes.
pub proof fn lemma_case_mixing(s: Seq<u8>, t: Seq<u8>, bytes: Seq<u8>, k: int)
    requires
        same_but_case(s, t),
    ensures
        all_hex(s) == all_hex(t),
        is_first_invalid(s, k) == is_first_invalid(t, k),
        decoded_bytes(s) == decoded_bytes(t),
        decodes_to(s, Ok(bytes)) == decodes_to(t, Ok(bytes)),
{
    assert forall|j: int| 0 <= j < s.len() implies is_hex_digit(#[trigger] s[j]) == is_hex_digit(
        t[j],
    ) && digit_value(s[j]) == digit_value(t[j]) by {
        assert(lower_case(s[j]) == lower_case(t[j]));
        lemma_case_of_digit(s[j], t[j]);
    }
    assert(all_hex(s) == all_hex(t)) by {
        if all_hex(s) {
            assert forall|j: int| 0 <= j < t.len() implies is_hex_digit(#[trigger] t[j]) by {
                assert(is_hex_digit(s[j]));
            }
        }
        if all_hex(t) {
            assert forall|j: int| 0 <= j < s.len() implies is_hex_digit(#[trigger] s[j]) by {
                assert(is_hex_digit(t[j]));
            }
        }
    }
    assert(is_first_invalid(s, k) == is_first_invalid(t, k)) by {
        if is_first_invalid(s, k) {
            assert forall|j: int| 0 <= j < k implies is_hex_digit(#[trigger] t[j]) by {
                assert(is_hex_digit(s[j]));
            }
        }
        if is_first_invalid(t, k) {
            assert forall|j: int| 0 <= j < k implies is_hex_digit(#[trigger] s[j]) by {
                assert(is_hex_digit(t[j]));
            }
        }
    }
    assert(decoded_bytes(s) =~= decoded_bytes(t)) by {
        assert forall|i: int| 0 <= i < s.len() / 2 implies #[trigger] decoded_bytes(s)[i]
            == decoded_bytes(t)[i] by {
            assert(digit_value(s[2 * i]) == digit_value(t[2 * i]));
            assert(digit_value(s[2 * i + 1]) == digit_value(t[2 * i + 1]));
        }
    }
}

/// Odd length comes first: a text of odd length decodes to `OddLength` and
/// to nothing else, whatever its bytes are.
pub proof fn lemma_odd_length_first(text: Seq<u8>, size: nat, r: Result<Seq<u8>, FromHexError>)
    requires
        text.len() % 2 != 0,
    ensures
        decodes_to(text, r) <==> r == Err::<Seq<u8>, FromHexError>(FromHexError::OddLength),
        decodes_to_sized(text, size, r) <==> r == Err::<Seq<u8>, FromHexError>(
            FromHexError::OddLength,
        ),
{
}

/// A text of even length that does not stand for `size` bytes decodes, for
/// a destination of that size, to `InvalidStringLength` and to nothing else,
/// whatever its bytes are.
pub proof fn lemma_size_before_digits(text: Seq<u8>, size: nat, r: Result<Seq<u8>, FromHexError>)
    requires
        text.len() % 2 == 0,
        text.len() / 2 != size,
    ensures
        decodes_to_sized(text, size, r) <==> r == Err::<Seq<u8>, FromHexError>(
            FromHexError::InvalidStringLength,
        ),
{
}

/// A text has one outcome: two results that are both outcomes of decoding
/// it are the same result.
pub proof fn lemma_outcome_unique(
    text: Seq<u8>,
    r1: Result<Seq<u8>, FromHexError>,
    r2: Result<Seq<u8>, FromHexError>,
)
    requires
        decodes_to(text, r1),
        decodes_to(text, r2),
    ensures
        r1 == r2,
{
    match (r1, r2) {
        (
            Err(FromHexError::InvalidHexCharacter { c: c1, index: i1 }),
            Err(FromHexError::InvalidHexCharacter { c: c2, index: i2 }),
        ) => {
            if i1 < i2 {
                assert(is_hex_digit(text[i1 as int]));
            } else if i2 < i1 {
                assert(is_hex_digit(text[i2 as int]));
            }
        },
        (Ok(_), Err(FromHexError::InvalidHexCharacter { c, index })) => {
            assert(is_hex_digit(text[index as int]));
        },
        (Err(FromHexError::InvalidHexCharacter { c, index }), Ok(_)) => {
            assert(is_hex_digit(text[index as int]));
        },
        _ => {},
    }
}

/// Decoding for a destination of the size that the text stands for is
/// decoding without a destination.
pub proof fn lemma_sized_of_own_size(text: Seq<u8>, r: Result<Seq<u8>, FromHexError>)
    ensures
        decodes_to_sized(text, text.len() / 2, r) <==> decodes_to(text, r),
{
}

} // verus!
