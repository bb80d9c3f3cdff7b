use vstd::prelude::*;
use vstd::string::StringSliceAdditionalSpecFns;
use vstd::utf8::encode_utf8;

verus! {

/// The sixteen digits in lower case, the digit of value `n` at place `n`.
pub const HEX_CHARS_LOWER: [u8; 16] = [
    0x30, 0x31, 0x32, 0x33, 0x34, 0x35, 0x36, 0x37,
    0x38, 0x39, 0x61, 0x62, 0x63, 0x64, 0x65, 0x66,
];

/// The sixteen digits in upper case, the digit of value `n` at place `n`.
pub const HEX_CHARS_UPPER: [u8; 16] = [
    0x30, 0x31, 0x32, 0x33, 0x34, 0x35, 0x36, 0x37,
    0x38, 0x39, 0x41, 0x42, 0x43, 0x44, 0x45, 0x46,
];

/// The nibble that character `k` of the text for `bytes` shows: the high
/// half of byte `k / 2` at an even place, its low half at an odd one.
pub open spec fn nibble_at(bytes: Seq<u8>, k: int) -> u8 {
    if k % 2 == 0 {
        bytes[k / 2] >> 4
    } else {
        bytes[k / 2] & 0xf
    }
}

/// The text for `bytes` with the digits of `table`: two characters for each
/// byte, in the order of the bytes.
pub open spec fn hex_text(table: Seq<u8>, bytes: Seq<u8>) -> Seq<char> {
    Seq::new(2 * bytes.len(), |k: int| table[nibble_at(bytes, k) as int] as char)
}

/// The text for a sequence of bytes is the two digits of its first byte
/// followed by the text for the rest.
pub proof fn lemma_hex_text_step(table: Seq<u8>, bytes: Seq<u8>)
    requires
        bytes.len() > 0,
    ensures
        hex_text(table, bytes) == seq![
            table[(bytes[0] >> 4) as int] as char,
            table[(bytes[0] & 0xf) as int] as char,
        ] + hex_text(table, bytes.drop_first()),
{
    let rest = bytes.drop_first();
    let head = seq![
        table[(bytes[0] >> 4) as int] as char,
        table[(bytes[0] & 0xf) as int] as char,
    ];
    assert forall|k: int| 0 <= k < 2 * bytes.len() implies hex_text(table, bytes)[k] == (head
        + hex_text(table, rest))[k] by {
        if k >= 2 {
            assert(nibble_at(bytes, k) == nibble_at(rest, k - 2));
        }
    }
    assert(hex_text(table, bytes) =~= head + hex_text(table, rest));
}

/// A producer of the hex text for a slice of bytes, one character at a time
/// and from the front. Its view is the text that is still to come.
pub struct BytesToHexChars<'a> {
    inner: &'a [u8],
    table: &'a [u8; 16],
    next: Option<char>,
}

impl<'a> View for BytesToHexChars<'a> {
    type V = Seq<char>;

    open spec fn view(&self) -> Seq<char> {
        match self.pending() {
            Some(c) => seq![c] + hex_text(self.digits(), self.remaining_bytes()),
            None => hex_text(self.digits(), self.remaining_bytes()),
        }
    }
}

impl<'a> BytesToHexChars<'a> {
    /// The bytes of which no digit has been handed out yet.
    pub closed spec fn remaining_bytes(&self) -> Seq<u8> {
        self.inner@
    }

    /// The table of digits that the text is written with.
    pub closed spec fn digits(&self) -> Seq<u8> {
        self.table@
    }

    /// The second digit of the byte that was begun last, while it is still
    /// to be handed out.
    pub closed spec fn pending(&self) -> Option<char> {
        self.next
    }

    /// A producer that has the whole text for `inner` before it, written
    /// with the digits of `table`.
    pub fn new(inner: &'a [u8], table: &'a [u8; 16]) -> (r: BytesToHexChars<'a>)
        ensures
            r.remaining_bytes() == inner@,
            r.digits() == table@,
            r.pending() is None,
            r@ == hex_text(table@, inner@),
    {
        BytesToHexChars { inner, table, next: None }
    }

    /// Hands out the next character of the text, or `None` once the text is
    /// at its end. A pending second digit goes out first; otherwise the
    /// next byte is begun: its first digit goes out and its second is kept.
    pub fn next(&mut self) -> (r: Option<char>)
        ensures
            old(self)@.len() == 0 ==> r is None && final(self)@ == old(self)@,
            old(self)@.len() > 0 ==> {
                &&& r == Some(old(self)@[0])
                &&& final(self)@ == old(self)@.drop_first()
            },
            final(self).digits() == old(self).digits(),
            old(self).pending() is Some ==> {
                &&& r == old(self).pending()
                &&& final(self).pending() is None
                &&& final(self).remaining_bytes() == old(self).remaining_bytes()
            },
            old(self).pending() is None && old(self).remaining_bytes().len() == 0 ==> {
                &&& r is None
                &&& final(self).pending() is None
                &&& final(self).remaining_bytes() == old(self).remaining_bytes()
            },
            old(self).pending() is None && old(self).remaining_bytes().len() > 0 ==> {
                let byte = old(self).remaining_bytes()[0];
                &&& r == Some(old(self).digits()[(byte >> 4) as int] as char)
                &&& final(self).pending() == Some(old(self).digits()[(byte & 0xf) as int] as char)
                &&& final(self).remaining_bytes() == old(self).remaining_bytes().drop_first()
            },
    {
        match self.next.take() {
            Some(current) => {
                assert(self@ =~= old(self)@.drop_first());
                Some(current)
            },
            None => {
                let n: usize = self.inner.len();
                if n == 0 {
                    None
                } else {
                    let byte: u8 = self.inner[0];
                    proof {
                        lemma_hex_text_step(self.table@, self.inner@);
                        assert(byte >> 4 < 16) by (bit_vector);
                        assert(byte & 0xf < 16) by (bit_vector);
                    }
                    self.inner = vstd::slice::slice_subrange(self.inner, 1, n);
                    let current = self.table[(byte >> 4) as usize] as char;
                    self.next = Some(self.table[(byte & 0xf) as usize] as char);
                    assert(self@ =~= old(self)@.drop_first());
                    Some(current)
                }
            },
        }
    }

    /// The number of characters still to come: two for each byte not yet
    /// begun, and one more where the second digit of a byte is pending.
    pub fn len(&self) -> (r: usize)
        requires
            self@.len() <= usize::MAX,
        ensures
            r == self@.len(),
            r == 2 * self.remaining_bytes().len() + (if self.pending() is Some {
                1int
            } else {
                0int
            }),
    {
        let mut length: usize = self.inner.len() * 2;
        if self.next.is_some() {
            length += 1;
        }
        length
    }

    /// The bounds of the number of characters still to come, which are both
    /// that number.
    pub fn size_hint(&self) -> (r: (usize, Option<usize>))
        requires
            self@.len() <= usize::MAX,
        ensures
            r.0 == self@.len(),
            r.1 == Some(r.0),
    {
        let length: usize = self.len();
        (length, Some(length))
    }
}

/// Writes out the whole hex text for `source` with the digits of `table`,
/// by running a producer to its end.
pub fn encode_to_iter(table: &[u8; 16], source: &[u8]) -> (r: String)
    ensures
        r@ == hex_text(table@, source@),
        r@.len() == 2 * source@.len(),
{
    let mut chars = BytesToHexChars::new(source, table);
    let mut out = String::new();
    loop
        invariant
            out@ + chars@ == hex_text(table@, source@),
        ensures
            out@ == hex_text(table@, source@),
        decreases chars@.len(),
    {
        let ghost before = chars@;
        match chars.next() {
            Some(c) => {
                out.push(c);
                assert(out@ + chars@ =~= (out@.drop_last() + before));
            },
            None => {
                assert(out@ + chars@ =~= out@);
                break ;
            },
        }
    }
    out
}

/// Values that can be written out as hex text.
pub trait ToHex {
    /// The bytes that the value is encoded from.
    spec fn hex_source(&self) -> Seq<u8>;

    /// The hex text for the value, with the letters in lower case
    /// (`f9b4ca`).
    fn encode_hex(&self) -> (r: String)
        ensures
            r@ == hex_text(HEX_CHARS_LOWER@, self.hex_source()),
    ;

    /// The hex text for the value, with the letters in upper case
    /// (`F9B4CA`).
    fn encode_hex_upper(&self) -> (r: String)
        ensures
            r@ == hex_text(HEX_CHARS_UPPER@, self.hex_source()),
    ;
}

impl ToHex for [u8] {
    open spec fn hex_source(&self) -> Seq<u8> {
        self@
    }

    fn encode_hex(&self) -> (r: String) {
        encode_to_iter(&HEX_CHARS_LOWER, self)
    }

    fn encode_hex_upper(&self) -> (r: String) {
        encode_to_iter(&HEX_CHARS_UPPER, self)
    }
}

impl ToHex for Vec<u8> {
    open spec fn hex_source(&self) -> Seq<u8> {
        self@
    }

    fn encode_hex(&self) -> (r: String) {
        encode_to_iter(&HEX_CHARS_LOWER, self.as_slice())
    }

    fn encode_hex_upper(&self) -> (r: String) {
        encode_to_iter(&HEX_CHARS_UPPER, self.as_slice())
    }
}

impl<const N: usize> ToHex for [u8; N] {
    open spec fn hex_source(&self) -> Seq<u8> {
        self@
    }

    fn encode_hex(&self) -> (r: String) {
        encode_to_iter(&HEX_CHARS_LOWER, self.as_slice())
    }

    fn encode_hex_upper(&self) -> (r: String) {
        encode_to_iter(&HEX_CHARS_UPPER, self.as_slice())
    }
}

impl ToHex for String {
    open spec fn hex_source(&self) -> Seq<u8> {
        encode_utf8(self@)
    }

    fn encode_hex(&self) -> (r: String) {
        encode_to_iter(&HEX_CHARS_LOWER, self.as_str().as_bytes())
    }

    fn encode_hex_upper(&self) -> (r: String) {
        encode_to_iter(&HEX_CHARS_UPPER, self.as_str().as_bytes())
    }
}

impl ToHex for str {
    open spec fn hex_source(&self) -> Seq<u8> {
        self.spec_bytes()
    }

    fn encode_hex(&self) -> (r: String) {
        encode_to_iter(&HEX_CHARS_LOWER, self.as_bytes())
    }

    fn encode_hex_upper(&self) -> (r: String) {
        encode_to_iter(&HEX_CHARS_UPPER, self.as_bytes())
    }
}

/// Encodes `data` as hex text with the letters in lower case: two digits for
/// each byte, the high nibble first, in the order of the bytes.
pub fn encode(data: &[u8]) -> (r: String)
    ensures
        r@ == hex_text(HEX_CHARS_LOWER@, data@),
        r@.len() == 2 * data@.len(),
{
    data.encode_hex()
}

/// Encodes `data` as hex text with the letters in upper case; apart from the
/// case of the letters it is the text that `encode` gives.
pub fn encode_upper(data: &[u8]) -> (r: String)
    ensures
        r@ == hex_text(HEX_CHARS_UPPER@, data@),
        r@.len() == 2 * data@.len(),
{
    data.encode_hex_upper()
}

} // verus!
