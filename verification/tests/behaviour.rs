use hex::digit::val;
use hex::decode::decode_pair;
use hex::encode::{HEX_CHARS_LOWER, HEX_CHARS_UPPER};
use hex::text::push_decimal;
use hex::{
    decode, decode_to_slice, encode, encode_to_iter, encode_upper, BytesToHexChars, FromHex,
    FromHexError, ToHex,
};

fn all_bytes() -> Vec<u8> {
    (0..=255u8).collect()
}

#[test]
fn round_trip_every_byte_lower() {
    let bytes = all_bytes();
    let text = encode(&bytes);
    assert_eq!(decode(text.as_bytes()), Ok(bytes));
}

#[test]
fn round_trip_every_byte_upper() {
    let bytes = all_bytes();
    let text = encode_upper(&bytes);
    assert_eq!(decode(text.as_bytes()), Ok(bytes));
}

#[test]
fn round_trip_single_bytes() {
    for b in 0..=255u8 {
        let text = encode(&[b]);
        assert_eq!(text, format!("{:02x}", b));
        assert_eq!(decode(text.as_bytes()), Ok(vec![b]));
        let upper = encode_upper(&[b]);
        assert_eq!(upper, format!("{:02X}", b));
        assert_eq!(decode(upper.as_bytes()), Ok(vec![b]));
    }
}

#[test]
fn length_is_twice_the_input() {
    for n in [0usize, 1, 2, 3, 7, 64, 255] {
        let bytes = vec![0xa5u8; n];
        assert_eq!(encode(&bytes).len(), 2 * n);
        assert_eq!(encode_upper(&bytes).len(), 2 * n);
    }
}

#[test]
fn empty_both_ways() {
    assert_eq!(encode(&[]), "");
    assert_eq!(encode_upper(&[]), "");
    assert_eq!(decode(b""), Ok(vec![]));
}

#[test]
fn encode_small_values() {
    assert_eq!(encode(&[1, 2, 3, 15, 16]), "0102030f10");
    assert_eq!(encode_upper(&[1, 2, 3, 15, 16]), "0102030F10");
}

#[test]
fn encode_hello_world() {
    assert_eq!(encode(b"Hello world!"), "48656c6c6f20776f726c6421");
    assert_eq!(encode_upper(b"Hello world!"), "48656C6C6F20776F726C6421");
}

#[test]
fn encode_high_nibble_first() {
    assert_eq!(encode(&[0xf0]), "f0");
    assert_eq!(encode(&[0x0f]), "0f");
    assert_eq!(encode(&[0xab, 0xcd]), "abcd");
}

#[test]
fn encode_with_each_table() {
    assert_eq!(encode_to_iter(&HEX_CHARS_LOWER, &[0xde, 0xad]), "dead");
    assert_eq!(encode_to_iter(&HEX_CHARS_UPPER, &[0xde, 0xad]), "DEAD");
    let odd_table: [u8; 16] = *b"ghijklmnopqrstuv";
    assert_eq!(encode_to_iter(&odd_table, &[0x01, 0xf9]), "ghvp");
}

#[test]
fn to_hex_on_slices_vectors_and_text() {
    let bytes: Vec<u8> = vec![0xf9, 0xb4, 0xca];
    assert_eq!(bytes.encode_hex(), "f9b4ca");
    assert_eq!(bytes.encode_hex_upper(), "F9B4CA");
    assert_eq!(bytes[..].encode_hex(), "f9b4ca");
    assert_eq!(bytes[..].encode_hex_upper(), "F9B4CA");
    assert_eq!("kiwi".encode_hex(), "6b697769");
    assert_eq!("kiwi".encode_hex_upper(), "6B697769");
    assert_eq!(String::from("Hello world!").encode_hex(), "48656c6c6f20776f726c6421");
    assert_eq!(String::from("\u{e9}").encode_hex_upper(), "C3A9");
    assert_eq!([0x00u8, 0xff, 0x10].encode_hex(), "00ff10");
    assert_eq!([0x00u8, 0xff, 0x10].encode_hex_upper(), "00FF10");
}

#[test]
fn case_of_the_digits_does_not_change_the_bytes() {
    let texts: [&[u8]; 4] = [b"deadbeef", b"DEADBEEF", b"DeAdBeEf", b"dEADbeeF"];
    for text in texts {
        assert_eq!(decode(text), Ok(vec![0xde, 0xad, 0xbe, 0xef]));
    }
    assert_eq!(
        decode(b"deadbeeg"),
        Err(FromHexError::InvalidHexCharacter { c: 'g', index: 7 })
    );
    assert_eq!(
        decode(b"DEADBEEG"),
        Err(FromHexError::InvalidHexCharacter { c: 'G', index: 7 })
    );
}

#[test]
fn fixed_size_of_five_and_six() {
    let mut five = [0u8; 5];
    assert_eq!(
        decode_to_slice(b"666f6f626172", &mut five),
        Err(FromHexError::InvalidStringLength)
    );
    let mut six = [0u8; 6];
    assert_eq!(decode_to_slice(b"666f6f626172", &mut six), Ok(()));
    assert_eq!(&six, b"foobar");
}

#[test]
fn producer_hands_out_one_character_at_a_time() {
    let data = [0x12u8, 0xef];
    let mut chars = BytesToHexChars::new(&data, &HEX_CHARS_LOWER);
    assert_eq!(chars.len(), 4);
    assert_eq!(chars.size_hint(), (4, Some(4)));
    assert_eq!(chars.next(), Some('1'));
    assert_eq!(chars.len(), 3);
    assert_eq!(chars.next(), Some('2'));
    assert_eq!(chars.len(), 2);
    assert_eq!(chars.next(), Some('e'));
    assert_eq!(chars.size_hint(), (1, Some(1)));
    assert_eq!(chars.next(), Some('f'));
    assert_eq!(chars.len(), 0);
    assert_eq!(chars.next(), None);
    assert_eq!(chars.next(), None);
    assert_eq!(chars.len(), 0);
}

#[test]
fn producer_of_nothing_is_at_its_end() {
    let mut chars = BytesToHexChars::new(&[], &HEX_CHARS_UPPER);
    assert_eq!(chars.len(), 0);
    assert_eq!(chars.next(), None);
}

#[test]
fn val_maps_every_byte() {
    for c in 0..=255u8 {
        let expected = match c {
            b'0'..=b'9' => Ok(c - b'0'),
            b'a'..=b'f' => Ok(c - b'a' + 10),
            b'A'..=b'F' => Ok(c - b'A' + 10),
            _ => Err(FromHexError::InvalidHexCharacter {
                c: c as char,
                index: 7,
            }),
        };
        assert_eq!(val(c, 7), expected);
    }
}

#[test]
fn val_edges_of_the_ranges() {
    assert_eq!(val(b'0', 0), Ok(0));
    assert_eq!(val(b'9', 0), Ok(9));
    assert_eq!(val(b'a', 0), Ok(10));
    assert_eq!(val(b'f', 0), Ok(15));
    assert_eq!(val(b'A', 0), Ok(10));
    assert_eq!(val(b'F', 0), Ok(15));
    for c in [b'/', b':', b'@', b'G', b'`', b'g'] {
        assert_eq!(
            val(c, 5),
            Err(FromHexError::InvalidHexCharacter {
                c: c as char,
                index: 5
            })
        );
    }
}

#[test]
fn decode_pair_reports_the_first_bad_digit() {
    assert_eq!(decode_pair(b"00a7", 1), Ok(0xa7));
    assert_eq!(
        decode_pair(b"00x7", 1),
        Err(FromHexError::InvalidHexCharacter { c: 'x', index: 2 })
    );
    assert_eq!(
        decode_pair(b"00ay", 1),
        Err(FromHexError::InvalidHexCharacter { c: 'y', index: 3 })
    );
    assert_eq!(
        decode_pair(b"00xy", 1),
        Err(FromHexError::InvalidHexCharacter { c: 'x', index: 2 })
    );
}

#[test]
fn decode_mixed_case() {
    let lower = decode(b"f9b4ca");
    assert_eq!(lower, Ok(vec![0xf9, 0xb4, 0xca]));
    assert_eq!(decode(b"F9B4CA"), lower);
    assert_eq!(decode(b"f9B4Ca"), lower);
    assert_eq!(decode(b"aA"), Ok(vec![0xaa]));
    assert_eq!(decode(b"Aa"), Ok(vec![0xaa]));
}

#[test]
fn decode_upper_case_vector() {
    assert_eq!(decode(b"666F6F626172"), Ok(b"foobar".to_vec()));
    assert_eq!(decode(b"666F6F626172"), decode(b"666f6f626172"));
}

#[test]
fn odd_length_wins_over_invalid_characters() {
    assert_eq!(decode(b"1"), Err(FromHexError::OddLength));
    assert_eq!(decode(b"g"), Err(FromHexError::OddLength));
    assert_eq!(decode(b"123"), Err(FromHexError::OddLength));
    assert_eq!(decode(b"zz zz zz zz z"), Err(FromHexError::OddLength));
    assert_eq!(decode(b"0123456789abc"), Err(FromHexError::OddLength));
}

#[test]
fn odd_length_wins_over_size_mismatch() {
    let mut out = [7u8; 4];
    assert_eq!(decode_to_slice(b"123", &mut out), Err(FromHexError::OddLength));
    assert_eq!(out, [7u8; 4]);
    assert_eq!(
        <[u8; 4] as FromHex>::from_hex(b"zzz"),
        Err(FromHexError::OddLength)
    );
}

#[test]
fn first_invalid_character_is_reported() {
    assert_eq!(
        decode(b"foo!"),
        Err(FromHexError::InvalidHexCharacter { c: 'o', index: 1 })
    );
    assert_eq!(
        decode(b"g0h0"),
        Err(FromHexError::InvalidHexCharacter { c: 'g', index: 0 })
    );
    assert_eq!(
        decode(b"00\xff0"),
        Err(FromHexError::InvalidHexCharacter {
            c: '\u{ff}',
            index: 2
        })
    );
}

#[test]
fn decode_to_slice_fills_the_buffer() {
    let mut bytes = [0u8; 4];
    assert_eq!(decode_to_slice(b"6b697769", &mut bytes), Ok(()));
    assert_eq!(&bytes, b"kiwi");
}

#[test]
fn decode_to_slice_checks_the_size_before_the_digits() {
    let mut out = [9u8; 5];
    assert_eq!(
        decode_to_slice(b"666f6f626172", &mut out),
        Err(FromHexError::InvalidStringLength)
    );
    assert_eq!(out, [9u8; 5]);
    assert_eq!(
        decode_to_slice(b"zzzzzzzzzzzz", &mut out),
        Err(FromHexError::InvalidStringLength)
    );
    assert_eq!(out, [9u8; 5]);
    let mut none: [u8; 0] = [];
    assert_eq!(decode_to_slice(b"", &mut none), Ok(()));
    assert_eq!(
        decode_to_slice(b"00", &mut none),
        Err(FromHexError::InvalidStringLength)
    );
}

#[test]
fn decode_to_slice_keeps_what_it_wrote_before_an_invalid_digit() {
    let mut out = [9u8; 4];
    assert_eq!(
        decode_to_slice(b"0102 304", &mut out),
        Err(FromHexError::InvalidHexCharacter { c: ' ', index: 4 })
    );
    assert_eq!(out, [1, 2, 9, 9]);
    let mut out = [9u8; 2];
    assert_eq!(
        decode_to_slice(b"ab0x", &mut out),
        Err(FromHexError::InvalidHexCharacter { c: 'x', index: 3 })
    );
    assert_eq!(out, [0xab, 9]);
}

#[test]
fn array_of_twelve_characters() {
    assert_eq!(
        <[u8; 6] as FromHex>::from_hex(b"666F6F626172"),
        Ok(*b"foobar")
    );
    assert_eq!(
        <[u8; 7] as FromHex>::from_hex(b"666f6f626172"),
        Err(FromHexError::InvalidStringLength)
    );
    assert_eq!(
        <[u8; 6] as FromHex>::from_hex(b"666f6f62617g"),
        Err(FromHexError::InvalidHexCharacter { c: 'g', index: 11 })
    );
    assert_eq!(<[u8; 0] as FromHex>::from_hex(b""), Ok([]));
}

#[test]
fn error_descriptions() {
    let bad = FromHexError::InvalidHexCharacter { c: 'g', index: 3 };
    assert_eq!(bad.description(), "invalid character");
    assert_eq!(FromHexError::OddLength.description(), "odd number of digits");
    assert_eq!(
        FromHexError::InvalidStringLength.description(),
        "invalid string length"
    );
}

#[test]
fn error_messages() {
    let bad = FromHexError::InvalidHexCharacter { c: 'g', index: 3 };
    assert_eq!(bad.message(), "Invalid character 'g' at position 3");
    let far = FromHexError::InvalidHexCharacter {
        c: ' ',
        index: 1204,
    };
    assert_eq!(far.message(), "Invalid character ' ' at position 1204");
    assert_eq!(FromHexError::OddLength.message(), "Odd number of digits");
    assert_eq!(
        FromHexError::InvalidStringLength.message(),
        "Invalid string length"
    );
}

#[test]
fn decimal_numbers() {
    for n in [0usize, 7, 9, 10, 11, 99, 100, 1204, 65535, usize::MAX] {
        let mut out = String::from("at ");
        push_decimal(&mut out, n);
        assert_eq!(out, format!("at {}", n));
    }
}

#[test]
fn errors_are_plain_values() {
    let e = FromHexError::InvalidHexCharacter { c: 'x', index: 2 };
    let copy = e;
    assert_eq!(e, copy);
    assert_ne!(e, FromHexError::InvalidHexCharacter { c: 'x', index: 3 });
    assert_ne!(e, FromHexError::OddLength);
    assert_eq!(format!("{:?}", FromHexError::OddLength), "OddLength");
}
