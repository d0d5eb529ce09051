//! Hexadecimal views of byte strings.
//!
//! ATRs, APDU commands and card responses all travel as hex-encoded strings.
//! The spec functions here give those strings an exact mathematical meaning;
//! the two trusted wrappers tie the `hex` crate's encoder and decoder to it.

use vstd::prelude::*;

verus! {

/// A character that is a hexadecimal digit, in either case.
pub open spec fn is_hex_digit(c: char) -> bool {
    ||| ('0' as u32) <= (c as u32) <= ('9' as u32)
    ||| ('a' as u32) <= (c as u32) <= ('f' as u32)
    ||| ('A' as u32) <= (c as u32) <= ('F' as u32)
}

/// Numeric value of a hexadecimal digit.
pub open spec fn hex_digit_value(c: char) -> u8 {
    if ('0' as u32) <= (c as u32) <= ('9' as u32) {
        ((c as u32) - ('0' as u32)) as u8
    } else if ('a' as u32) <= (c as u32) <= ('f' as u32) {
        ((c as u32) - ('a' as u32) + 10) as u8
    } else if ('A' as u32) <= (c as u32) <= ('F' as u32) {
        ((c as u32) - ('A' as u32) + 10) as u8
    } else {
        0
    }
}

/// A string that decodes as hex: even length, hex digits throughout.
pub open spec fn hex_valid(s: Seq<char>) -> bool {
    &&& s.len() % 2 == 0
    &&& forall|i: int| 0 <= i < s.len() ==> is_hex_digit(#[trigger] s[i])
}

/// The bytes a hex string stands for: one byte per digit pair.
pub open spec fn hex_bytes(s: Seq<char>) -> Seq<u8> {
    Seq::new((s.len() / 2) as nat, |i: int|
        (16 * hex_digit_value(s[2 * i]) + hex_digit_value(s[2 * i + 1])) as u8)
}

/// The lowercase hex digit for a value below 16.
pub open spec fn lower_hex_char(n: u8) -> char {
    if n < 10 {
        ((('0' as u32) + n as u32) as char)
    } else {
        ((('a' as u32) + (n - 10) as u32) as char)
    }
}

/// The uppercase hex digit for a value below 16.
pub open spec fn upper_hex_char(n: u8) -> char {
    if n < 10 {
        ((('0' as u32) + n as u32) as char)
    } else {
        ((('A' as u32) + (n - 10) as u32) as char)
    }
}

/// Lowercase hex encoding of a byte string: two digits per byte.
pub open spec fn hex_encoding(b: Seq<u8>) -> Seq<char> {
    Seq::new(2 * b.len(), |i: int|
        if i % 2 == 0 {
            lower_hex_char(b[i / 2] / 16)
        } else {
            lower_hex_char(b[i / 2] % 16)
        })
}

/// Uppercase hex encoding of a byte string: two digits per byte.
pub open spec fn upper_hex_encoding(b: Seq<u8>) -> Seq<char> {
    Seq::new(2 * b.len(), |i: int|
        if i % 2 == 0 {
            upper_hex_char(b[i / 2] / 16)
        } else {
            upper_hex_char(b[i / 2] % 16)
        })
}

/// The one-character string for an uppercase hex digit.
pub fn upper_hex_digit_str(n: u8) -> (r: &'static str)
    requires
        n < 16,
    ensures
        r@ =~= seq![upper_hex_char(n)],
{
    let r = match n {
        0 => "0",
        1 => "1",
        2 => "2",
        3 => "3",
        4 => "4",
        5 => "5",
        6 => "6",
        7 => "7",
        8 => "8",
        9 => "9",
        10 => "A",
        11 => "B",
        12 => "C",
        13 => "D",
        14 => "E",
        _ => "F",
    };
    proof {
        reveal_strlit("0");
        reveal_strlit("1");
        reveal_strlit("2");
        reveal_strlit("3");
        reveal_strlit("4");
        reveal_strlit("5");
        reveal_strlit("6");
        reveal_strlit("7");
        reveal_strlit("8");
        reveal_strlit("9");
        reveal_strlit("A");
        reveal_strlit("B");
        reveal_strlit("C");
        reveal_strlit("D");
        reveal_strlit("E");
        reveal_strlit("F");
    }
    r
}

/// Encodes bytes as an uppercase hex string, two digits per byte.
pub fn encode_hex_upper(b: &Vec<u8>) -> (r: String)
    ensures
        r@ == upper_hex_encoding(b@),
{
    let mut r = String::new();
    let mut i: usize = 0;
    while i < b.len()
        invariant
            0 <= i <= b.len(),
            r@ == upper_hex_encoding(b@.take(i as int)),
        decreases b.len() - i,
    {
        let byte = b[i];
        r.append(upper_hex_digit_str(byte / 16));
        r.append(upper_hex_digit_str(byte % 16));
        proof {
            assert(r@ =~= upper_hex_encoding(b@.take(i as int + 1)));
        }
        i += 1;
    }
    proof {
        assert(b@.take(b@.len() as int) =~= b@);
    }
    r
}

/// Relies on `hex::encode`: every byte becomes two lowercase hex digits,
/// most significant nibble first.
#[verifier::external_body]
pub(crate) fn hex_encode_bytes(b: &[u8]) -> (r: String)
    ensures
        r@ == hex_encoding(b@),
{
    hex::encode(b)
}

/// Relies on `hex::decode`: it succeeds exactly on even-length strings of
/// hex digits, and then returns one byte per digit pair.
#[verifier::external_body]
pub(crate) fn hex_decode_str(s: &str) -> (r: Option<Vec<u8>>)
    ensures
        r is Some <==> hex_valid(s@),
        r is Some ==> r->0@ == hex_bytes(s@),
{
    hex::decode(s).ok()
}

/// Decodes a hex string, or reports that it is not one.
pub fn decode_hex(s: &str) -> (r: Option<Vec<u8>>)
    ensures
        r is Some <==> hex_valid(s@),
        r is Some ==> r->0@ == hex_bytes(s@),
{
    hex_decode_str(s)
}

/// Encodes bytes as a lowercase hex string.
pub fn encode_hex(b: &Vec<u8>) -> (r: String)
    ensures
        r@ == hex_encoding(b@),
{
    hex_encode_bytes(b.as_slice())
}

} // verus!
