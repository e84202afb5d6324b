//! The text form of identifiers.
//!
//! An identifier is written as the unpadded base-32 form of its four bytes,
//! most significant byte first: seven symbols, each standing for five bits of
//! the identifier followed by three zero bits.

use data_encoding::BASE32_NOPAD;
use vstd::prelude::*;
use vstd::string::*;
use vstd::utf8::*;

verus! {

/// The smallest identifier that is handed out: the top five bits of an
/// identifier are never all zero.
pub const MIN_UUID: u32 = 0x0800_0000;

/// The number of symbols in the text form of an identifier.
pub const ENCODED_LEN: usize = 7;

/// The number whose big-endian bytes are the four given ones.
pub open spec fn be_value(bytes: Seq<u8>) -> int {
    bytes[0] * 0x100_0000 + bytes[1] * 0x1_0000 + bytes[2] * 0x100 + bytes[3]
}

/// The weight of the symbol at position `j` among the seven base-32 digits.
pub open spec fn place(j: int) -> int {
    if j == 0 {
        0x4000_0000
    } else if j == 1 {
        0x200_0000
    } else if j == 2 {
        0x10_0000
    } else if j == 3 {
        0x8000
    } else if j == 4 {
        0x400
    } else if j == 5 {
        0x20
    } else {
        1
    }
}

/// The base-32 digit at position `j`, the most significant first, of the
/// 32-bit `value` followed by three zero bits.
pub open spec fn digit(value: int, j: int) -> int {
    (8 * value / place(j)) % 32
}

/// The symbol for a digit: `A` to `Z` for 0 to 25, `2` to `7` for 26 to 31.
pub open spec fn symbol(d: int) -> u8 {
    if d < 26 {
        (65 + d) as u8
    } else {
        (24 + d) as u8
    }
}

/// The seven symbols that stand for a 32-bit `value`, as bytes.
pub open spec fn encoded_bytes(value: int) -> Seq<u8> {
    Seq::new(7, |j: int| symbol(digit(value, j)))
}

/// The seven symbols that stand for a 32-bit `value`, as characters.
pub open spec fn encoded_chars(value: int) -> Seq<char> {
    Seq::new(7, |j: int| symbol(digit(value, j)) as char)
}

/// The text form of an identifier.
pub open spec fn encoded_text(id: u32) -> Seq<char> {
    encoded_chars(id as int)
}

/// The identifier that a text stands for, if it is the text form of one.
pub open spec fn decoded(text: Seq<char>) -> Option<u32> {
    if exists|id: u32| text == encoded_text(id) {
        Some(choose|id: u32| text == encoded_text(id))
    } else {
        None
    }
}

/// `u32::to_be_bytes` of std: the bytes of the number, most significant first.
#[verifier::external_body]
fn to_be_bytes(x: u32) -> (bytes: [u8; 4])
    ensures
        be_value(bytes@) == x,
{
    x.to_be_bytes()
}

/// `u32::from_be_bytes` of std: the number whose bytes, most significant
/// first, are the given ones.
#[verifier::external_body]
fn from_be_bytes(bytes: [u8; 4]) -> (x: u32)
    ensures
        x == be_value(bytes@),
{
    u32::from_be_bytes(bytes)
}

/// `Encoding::encode` of data-encoding on `BASE32_NOPAD`, for four bytes of
/// input: the seven symbols of the alphabet `A`-`Z`, `2`-`7` that spell the
/// 32 bits, five bits to a symbol from the most significant on, the last
/// symbol filled up with zero bits.
#[verifier::external_body]
fn base32_encode(input: &[u8; 4]) -> (text: String)
    ensures
        text@ == encoded_chars(be_value(input@)),
{
    BASE32_NOPAD.encode(&input[..])
}

/// `Encoding::decode_len` of data-encoding on `BASE32_NOPAD`: the number of
/// bytes that `len` symbols decode to, which is `5 * len / 8`, or `None` where
/// no input has that many symbols (the symbols would leave five or more bits
/// over). The function may panic on a `len` above `usize::MAX / 8`.
#[verifier::external_body]
fn base32_decode_len(len: usize) -> (bytes: Option<usize>)
    requires
        len <= usize::MAX / 8,
    ensures
        match bytes {
            Some(n) => (5 * len) % 8 < 5 && n == 5 * len / 8,
            None => (5 * len) % 8 >= 5,
        },
{
    match BASE32_NOPAD.decode_len(len) {
        Ok(n) => Some(n),
        Err(_) => None,
    }
}

/// `Encoding::decode_mut` of data-encoding on `BASE32_NOPAD`, for seven bytes
/// of input and four of output: it succeeds exactly on the inputs that
/// `encode` produces from four bytes, and then writes those bytes. It fails on
/// a byte outside the alphabet and on non-zero bits after the 32nd.
#[verifier::external_body]
fn base32_decode(input: &[u8]) -> (output: Option<[u8; 4]>)
    requires
        input@.len() == 7,
    ensures
        match output {
            Some(bytes) => input@ == encoded_bytes(be_value(bytes@)),
            None => forall|v: u32| input@ != encoded_bytes(v as int),
        },
{
    let mut bytes = [0u8; 4];
    match BASE32_NOPAD.decode_mut(input, &mut bytes) {
        Ok(_) => Some(bytes),
        Err(_) => None,
    }
}

/// A digit is below 32 and not negative.
proof fn lemma_digit_range(value: int, j: int)
    requires
        0 <= value,
        0 <= j < 7,
    ensures
        0 <= digit(value, j) < 32,
{
}

/// Different digits have different symbols.
proof fn lemma_symbol_injective(c: int, d: int)
    requires
        0 <= c < 32,
        0 <= d < 32,
        symbol(c) == symbol(d),
    ensures
        c == d,
{
}

/// The seven digits of a 32-bit value determine it.
proof fn lemma_digits_determine_value(a: int, b: int)
    requires
        0 <= a < 0x1_0000_0000,
        0 <= b < 0x1_0000_0000,
        forall|j: int| 0 <= j < 7 ==> digit(a, j) == digit(b, j),
    ensures
        a == b,
{
    let x = a as u64;
    let y = b as u64;
    assert(digit(a, 0) == digit(b, 0));
    assert(digit(a, 1) == digit(b, 1));
    assert(digit(a, 2) == digit(b, 2));
    assert(digit(a, 3) == digit(b, 3));
    assert(digit(a, 4) == digit(b, 4));
    assert(digit(a, 5) == digit(b, 5));
    assert(digit(a, 6) == digit(b, 6));
    assert(x == y) by (bit_vector)
        requires
            x < 0x1_0000_0000,
            y < 0x1_0000_0000,
            (8 * x / 0x4000_0000) % 32 == (8 * y / 0x4000_0000) % 32,
            (8 * x / 0x200_0000) % 32 == (8 * y / 0x200_0000) % 32,
            (8 * x / 0x10_0000) % 32 == (8 * y / 0x10_0000) % 32,
            (8 * x / 0x8000) % 32 == (8 * y / 0x8000) % 32,
            (8 * x / 0x400) % 32 == (8 * y / 0x400) % 32,
            (8 * x / 0x20) % 32 == (8 * y / 0x20) % 32,
            (8 * x / 1) % 32 == (8 * y / 1) % 32,
    ;
}

/// The bytes of the text form, as UTF-8, are the symbols themselves.
pub proof fn lemma_text_bytes(id: u32)
    ensures
        encode_utf8(encoded_text(id)) == encoded_bytes(id as int),
{
    let text = encoded_text(id);
    assert(is_ascii_chars(text)) by {
        assert forall|i: int| 0 <= i < text.len() implies '\0' <= #[trigger] text[i]
            <= '\u{7f}' by {
            lemma_digit_range(id as int, i);
        }
    }
    is_ascii_chars_encode_utf8(text);
    assert forall|i: int| 0 <= i < 7 implies encode_utf8(text)[i] == encoded_bytes(id as int)[i] by {
        lemma_digit_range(id as int, i);
        assert(text[i] as u8 == encode_utf8(text)[i]);
    }
    assert(encode_utf8(text) =~= encoded_bytes(id as int));
}

/// The text form of an identifier has seven characters, each a letter from
/// `A` to `Z` or a digit from `2` to `7`.
pub proof fn lemma_text_symbols(id: u32)
    ensures
        encoded_text(id).len() == 7,
        forall|i: int|
            0 <= i < 7 ==> ('A' <= #[trigger] encoded_text(id)[i] <= 'Z') || ('2' <= encoded_text(
                id,
            )[i] <= '7'),
{
    assert forall|i: int| 0 <= i < 7 implies ('A' <= #[trigger] encoded_text(id)[i] <= 'Z') || ('2'
        <= encoded_text(id)[i] <= '7') by {
        lemma_digit_range(id as int, i);
    }
}

/// No two identifiers share a text form.
pub proof fn lemma_encoding_injective(a: u32, b: u32)
    requires
        encoded_text(a) == encoded_text(b),
    ensures
        a == b,
{
    assert forall|j: int| 0 <= j < 7 implies digit(a as int, j) == digit(b as int, j) by {
        lemma_digit_range(a as int, j);
        lemma_digit_range(b as int, j);
        assert(encoded_text(a)[j] == encoded_text(b)[j]);
        let c = symbol(digit(a as int, j));
        let d = symbol(digit(b as int, j));
        assert(encoded_text(a)[j] == c as char && encoded_text(b)[j] == d as char);
        assert((c as char) as u8 == c && (d as char) as u8 == d);
        assert(c == d);
        lemma_symbol_injective(digit(a as int, j), digit(b as int, j));
    }
    lemma_digits_determine_value(a as int, b as int);
}

/// Decoding the text form of an identifier gives the identifier back.
pub proof fn lemma_decode_encode(id: u32)
    ensures
        decoded(encoded_text(id)) == Some(id),
{
    let found = choose|other: u32| encoded_text(id) == encoded_text(other);
    lemma_encoding_injective(id, found);
}

/// A text whose UTF-8 bytes are the symbols of an identifier is its text form.
proof fn lemma_bytes_text(text: Seq<char>, id: u32)
    requires
        encode_utf8(text) == encoded_bytes(id as int),
    ensures
        text == encoded_text(id),
{
    lemma_text_bytes(id);
    encode_utf8_decode_utf8(text);
    encode_utf8_decode_utf8(encoded_text(id));
}

/// The text form of an identifier: seven symbols of the alphabet `A`-`Z`,
/// `2`-`7`.
pub fn encode(id: u32) -> (text: String)
    ensures
        text@ == encoded_text(id),
{
    let bytes = to_be_bytes(id);
    base32_encode(&bytes)
}

/// Reads an identifier from its text form. Any other text gives `None`.
pub fn decode(text: &str) -> (id: Option<u32>)
    ensures
        id == decoded(text@),
{
    let input = text.as_bytes();
    let len = input.len();
    proof {
        assert forall|v: u32| text@ == encoded_text(v) implies text.spec_bytes().len() == 7 by {
            lemma_text_bytes(v);
        }
    }
    if len > usize::MAX / 8 {
        // Longer than any length the decoder takes, and so no identifier.
        return None;
    }
    let needed = match base32_decode_len(len) {
        None => {
            return None;
        },
        Some(n) => n,
    };
    if needed != 4 {
        return None;
    }
    assert(len == 7);
    match base32_decode(input) {
        None => {
            proof {
                assert forall|v: u32| text@ != encoded_text(v) by {
                    if text@ == encoded_text(v) {
                        lemma_text_bytes(v);
                    }
                }
            }
            None
        },
        Some(bytes) => {
            let id = from_be_bytes(bytes);
            proof {
                lemma_bytes_text(text@, id);
                lemma_decode_encode(id);
            }
            Some(id)
        },
    }
}

} // verus!
