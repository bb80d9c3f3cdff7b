use vstd::prelude::*;
use crate::error::FromHexError;
use crate::digit::{val, is_hex_digit, digit_value};

verus! {

/// The byte that two hex digits stand for, the high nibble first.
pub open spec fn pair_value(hi: u8, lo: u8) -> u8 {
    (digit_value(hi) << 4) | digit_value(lo)
}

/// The bytes that a text of hex digits stands for: byte `i` comes from the
/// digits at positions `2 * i` and `2 * i + 1`.
pub open spec fn decoded_bytes(text: Seq<u8>) -> Seq<u8> {
    Seq::new((text.len() / 2) as nat, |i: int| pair_value(text[2 * i], text[2 * i + 1]))
}

/// Whether every byte of `text` is a hex digit.
pub open spec fn all_hex(text: Seq<u8>) -> bool {
    forall|k: int| 0 <= k < text.len() ==> is_hex_digit(#[trigger] text[k])
}

/// Whether `k` is the position of the first byte of `text` that is no hex
/// digit.
pub open spec fn is_first_invalid(text: Seq<u8>, k: int) -> bool {
    &&& 0 <= k < text.len()
    &&& !is_hex_digit(text[k])
    &&& forall|j: int| 0 <= j < k ==> is_hex_digit(#[trigger] text[j])
}

/// Whether `r` is the outcome of decoding `text`: an odd length is reported
/// before anything else, then the first byte that is no hex digit; a text
/// without either decodes to its bytes.
pub open spec fn decodes_to(text: Seq<u8>, r: Result<Seq<u8>, FromHexError>) -> bool {
    match r {
        Ok(bytes) => text.len() % 2 == 0 && all_hex(text) && bytes == decoded_bytes(text),
        Err(FromHexError::OddLength) => text.len() % 2 != 0,
        Err(FromHexError::InvalidHexCharacter { c, index }) => {
            &&& text.len() % 2 == 0
            &&& is_first_invalid(text, index as int)
            &&& c == text[index as int] as char
        },
        Err(FromHexError::InvalidStringLength) => false,
    }
}

/// A decoding result with the bytes taken as a sequence.
pub open spec fn result_view(r: Result<Vec<u8>, FromHexError>) -> Result<Seq<u8>, FromHexError> {
    match r {
        Ok(v) => Ok(v@),
        Err(e) => Err(e),
    }
}

/// Whether `r` is the outcome of decoding `text` for a destination of `size`
/// bytes. An odd length is reported first; then a text that does not stand
/// for exactly `size` bytes; then the first byte that is no hex digit.
pub open spec fn decodes_to_sized(
    text: Seq<u8>,
    size: nat,
    r: Result<Seq<u8>, FromHexError>,
) -> bool {
    match r {
        Ok(bytes) => {
            &&& text.len() % 2 == 0
            &&& text.len() / 2 == size
            &&& all_hex(text)
            &&& bytes == decoded_bytes(text)
        },
        Err(FromHexError::OddLength) => text.len() % 2 != 0,
        Err(FromHexError::InvalidStringLength) => text.len() % 2 == 0 && text.len() / 2 != size,
        Err(FromHexError::InvalidHexCharacter { c, index }) => {
            &&& text.len() % 2 == 0
            &&& text.len() / 2 == size
            &&& is_first_invalid(text, index as int)
            &&& c == text[index as int] as char
        },
    }
}

/// What a buffer that held `before` holds after `text` was decoded into it
/// with the error `e`. The two length checks leave it as it was. An invalid
/// digit leaves the bytes of the pairs before it decoded and the rest as it
/// was.
pub open spec fn buffer_after_error(text: Seq<u8>, before: Seq<u8>, e: FromHexError) -> Seq<u8> {
    match e {
        FromHexError::InvalidHexCharacter { c, index } => decoded_bytes(text).subrange(
            0,
            index as int / 2,
        ) + before.subrange(index as int / 2, before.len() as int),
        _ => before,
    }
}

/// Whether `r` and `after` are the outcome of decoding `text` into a buffer
/// that held `before`.
pub open spec fn decodes_into(
    text: Seq<u8>,
    before: Seq<u8>,
    r: Result<(), FromHexError>,
    after: Seq<u8>,
) -> bool {
    match r {
        Ok(_) => decodes_to_sized(text, before.len(), Ok(after)),
        Err(e) => {
            &&& decodes_to_sized(text, before.len(), Err(e))
            &&& after == buffer_after_error(text, before, e)
        },
    }
}

/// A result of decoding into an array, with the bytes taken as a sequence.
pub open spec fn array_result_view<const N: usize>(r: Result<[u8; N], FromHexError>) -> Result<
    Seq<u8>,
    FromHexError,
> {
    match r {
        Ok(a) => Ok(a@),
        Err(e) => Err(e),
    }
}

/// Decodes the pair of digits number `i` of `data`, the high digit first, and
/// reports the first of the two that is no hex digit.
pub fn decode_pair(data: &[u8], i: usize) -> (r: Result<u8, FromHexError>)
    requires
        2 * i + 1 < data.len(),
    ensures
        match r {
            Ok(b) => {
                &&& is_hex_digit(data@[2 * i])
                &&& is_hex_digit(data@[2 * i + 1])
                &&& b == pair_value(data@[2 * i], data@[2 * i + 1])
            },
            Err(FromHexError::InvalidHexCharacter { c, index }) => {
                if !is_hex_digit(data@[2 * i]) {
                    index == 2 * i && c == data@[2 * i] as char
                } else {
                    &&& !is_hex_digit(data@[2 * i + 1])
                    &&& index == 2 * i + 1
                    &&& c == data@[2 * i + 1] as char
                }
            },
            Err(_) => false,
        },
{
    let hi = val(data[2 * i], 2 * i)?;
    let lo = val(data[2 * i + 1], 2 * i + 1)?;
    Ok(hi << 4 | lo)
}

/// Types that can be decoded from a hex text.
///
/// Upper and lower case digits are both valid and may be mixed (`f9b4ca`,
/// `F9B4CA` and `f9B4Ca` all stand for the same bytes).
pub trait FromHex: Sized {
    /// What is returned where the text does not stand for a value.
    type Error;

    /// Whether `r` is what decoding the text `hex` into this type gives.
    spec fn from_hex_outcome(hex: Seq<u8>, r: Result<Self, Self::Error>) -> bool;

    /// Makes a value from the hex text `hex`, or says why it stands for
    /// none.
    fn from_hex(hex: &[u8]) -> (r: Result<Self, Self::Error>)
        ensures
            Self::from_hex_outcome(hex@, r),
    ;
}

impl FromHex for Vec<u8> {
    type Error = FromHexError;

    open spec fn from_hex_outcome(hex: Seq<u8>, r: Result<Vec<u8>, FromHexError>) -> bool {
        decodes_to(hex, result_view(r))
    }

    /// A text of odd length is refused whatever it holds; otherwise the
    /// first byte that is no hex digit is reported with its position, and a
    /// text without one gives one byte for each pair of digits.
    fn from_hex(data: &[u8]) -> (r: Result<Vec<u8>, FromHexError>)
        ensures
            r is Ok <==> data@.len() % 2 == 0 && all_hex(data@),
    {
        if data.len() % 2 != 0 {
            return Err(FromHexError::OddLength);
        }
        let n: usize = data.len() / 2;
        let mut out: Vec<u8> = Vec::with_capacity(n);
        let mut i: usize = 0;
        while i < n
            invariant
                data@.len() % 2 == 0,
                n == data@.len() / 2,
                i <= n,
                out@.len() == i,
                forall|j: int| 0 <= j < 2 * i ==> is_hex_digit(#[trigger] data@[j]),
                forall|j: int| 0 <= j < i ==> out@[j] == pair_value(data@[2 * j], data@[2 * j + 1]),
            decreases n - i,
        {
            let b = decode_pair(data, i)?;
            out.push(b);
            i += 1;
        }
        assert(out@ =~= decoded_bytes(data@));
        Ok(out)
    }
}

impl<const N: usize> FromHex for [u8; N] {
    type Error = FromHexError;

    open spec fn from_hex_outcome(hex: Seq<u8>, r: Result<[u8; N], FromHexError>) -> bool {
        decodes_to_sized(hex, N as nat, array_result_view(r))
    }

    /// Decodes into an array of `N` bytes: the text has to stand for
    /// exactly `N` bytes.
    fn from_hex(hex: &[u8]) -> (r: Result<[u8; N], FromHexError>)
        ensures
            r is Ok <==> hex@.len() == 2 * N && all_hex(hex@),
    {
        let mut out = [0u8;N];
        decode_to_slice(hex, &mut out)?;
        Ok(out)
    }
}

/// Decodes a hex text into the bytes it stands for.
///
/// Upper and lower case digits may be mixed freely. A text of odd length is
/// refused whatever it holds; otherwise the first byte that is no hex digit
/// is reported with its position.
pub fn decode(data: &[u8]) -> (r: Result<Vec<u8>, FromHexError>)
    ensures
        r is Ok <==> data@.len() % 2 == 0 && all_hex(data@),
        decodes_to(data@, result_view(r)),
{
    FromHex::from_hex(data)
}

/// Decodes a hex text into a buffer of exactly the size of what it stands
/// for.
///
/// The length of the text is checked before any byte is written: first that
/// it is even, then that half of it is the length of `out`. After that the
/// pairs are decoded from the left, each byte written to its place in `out`,
/// up to the first byte that is no hex digit.
pub fn decode_to_slice(data: &[u8], out: &mut [u8]) -> (r: Result<(), FromHexError>)
    ensures
        final(out)@.len() == old(out)@.len(),
        r is Ok <==> data@.len() == 2 * old(out)@.len() && all_hex(data@),
        decodes_into(data@, old(out)@, r, final(out)@),
{
    if data.len() % 2 != 0 {
        return Err(FromHexError::OddLength);
    }
    if data.len() / 2 != out.len() {
        return Err(FromHexError::InvalidStringLength);
    }
    let n: usize = out.len();
    let mut i: usize = 0;
    while i < n
        invariant
            data@.len() % 2 == 0,
            n == data@.len() / 2,
            n == out@.len(),
            n == old(out)@.len(),
            i <= n,
            forall|j: int| 0 <= j < 2 * i ==> is_hex_digit(#[trigger] data@[j]),
            forall|j: int| 0 <= j < i ==> out@[j] == pair_value(data@[2 * j], data@[2 * j + 1]),
            forall|j: int| i <= j < n ==> out@[j] == old(out)@[j],
        decreases n - i,
    {
        match decode_pair(data, i) {
            Ok(b) => {
                out[i] = b;
            },
            Err(e) => {
                assert(out@ =~= decoded_bytes(data@).subrange(0, i as int) + old(out)@.subrange(
                    i as int,
                    n as int,
                ));
                return Err(e);
            },
        }
        i += 1;
    }
    assert(out@ =~= decoded_bytes(data@));
    Ok(())
}

} // verus!
