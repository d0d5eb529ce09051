//! ATR protocol parser.
//!
//! A card answers a reset with a short byte string (the ATR) whose interface
//! bytes encode the transport protocol it speaks. Byte 1's high nibble flags
//! the presence of TA1/TB1/TC1/TD1; TD1's low nibble names a protocol and its
//! high nibble flags TA2/TB2/TC2/TD2; TD2's low nibble, when present,
//! overrides TD1's. Anything truncated, non-hex or unrecognised falls back to
//! the first protocol rather than failing: the parser must never abort its
//! caller.

use vstd::prelude::*;
use crate::hexcodec::{hex_valid, hex_bytes, decode_hex};

verus! {

/// The transport protocol negotiated with a card.
#[derive(Clone, Copy, Debug, PartialEq, Eq, Structural)]
pub enum Protocol {
    T0,
    T1,
}

/// High nibble of a byte.
pub open spec fn nibble_hi(b: u8) -> u8 {
    b / 16
}

/// Low nibble of a byte.
pub open spec fn nibble_lo(b: u8) -> u8 {
    b % 16
}

/// Whether bit `k` (0-based) of a nibble is set, for the four presence bits.
pub open spec fn nibble_bit(n: u8, k: u8) -> bool {
    if k == 0 {
        n % 2 == 1
    } else if k == 1 {
        (n / 2) % 2 == 1
    } else if k == 2 {
        (n / 4) % 2 == 1
    } else {
        (n / 8) % 2 == 1
    }
}

/// Index of TD1 in the ATR, after the interface bytes Y1 announces.
pub open spec fn td1_index(b: Seq<u8>) -> int {
    let y1 = nibble_hi(b[1]);
    2 + (if nibble_bit(y1, 0) { 1int } else { 0 })
      + (if nibble_bit(y1, 1) { 1int } else { 0 })
      + (if nibble_bit(y1, 2) { 1int } else { 0 })
}

/// TD1 is present: Y1's bit 3 is set and the byte is not truncated away.
pub open spec fn has_td1(b: Seq<u8>) -> bool {
    &&& b.len() >= 2
    &&& nibble_bit(nibble_hi(b[1]), 3)
    &&& td1_index(b) < b.len()
}

pub open spec fn td1(b: Seq<u8>) -> u8 {
    b[td1_index(b)]
}

/// Index of TD2, after the interface bytes TD1's high nibble announces.
pub open spec fn td2_index(b: Seq<u8>) -> int {
    let y2 = nibble_hi(td1(b));
    td1_index(b) + 1
      + (if nibble_bit(y2, 0) { 1int } else { 0 })
      + (if nibble_bit(y2, 1) { 1int } else { 0 })
      + (if nibble_bit(y2, 2) { 1int } else { 0 })
}

/// TD2 is present: TD1 is, its bit 3 is set, and the byte is not truncated.
pub open spec fn has_td2(b: Seq<u8>) -> bool {
    &&& has_td1(b)
    &&& nibble_bit(nibble_hi(td1(b)), 3)
    &&& td2_index(b) < b.len()
}

pub open spec fn td2(b: Seq<u8>) -> u8 {
    b[td2_index(b)]
}

/// Protocol named by a TD byte's low nibble; every unknown code falls back
/// to T=0.
pub open spec fn protocol_code(td: u8) -> Protocol {
    if nibble_lo(td) == 1 {
        Protocol::T1
    } else {
        Protocol::T0
    }
}

/// The protocol an ATR byte string negotiates: TD2's code when TD2 is
/// present, else TD1's, else T=0.
pub open spec fn protocol_of_atr_bytes(b: Seq<u8>) -> Protocol {
    if has_td2(b) {
        protocol_code(td2(b))
    } else if has_td1(b) {
        protocol_code(td1(b))
    } else {
        Protocol::T0
    }
}

/// The protocol a hex-encoded ATR negotiates; a string that is not hex
/// falls back to T=0.
pub open spec fn protocol_of_atr_hex(s: Seq<char>) -> Protocol {
    if hex_valid(s) {
        protocol_of_atr_bytes(hex_bytes(s))
    } else {
        Protocol::T0
    }
}

/// Parses a raw ATR and extracts the negotiated transport protocol.
pub fn parse_atr_bytes(bytes: &Vec<u8>) -> (p: Protocol)
    ensures
        p == protocol_of_atr_bytes(bytes@),
{
    if bytes.len() < 2 {
        return Protocol::T0;
    }

    let mut index: usize = 1;
    let y1: u8 = bytes[index] / 16;
    index += 1;

    // Skip TA1, TB1, TC1 depending on Y1.
    if y1 % 2 == 1 {
        index += 1;
    }
    if (y1 / 2) % 2 == 1 {
        index += 1;
    }
    if (y1 / 4) % 2 == 1 {
        index += 1;
    }

    assert(index == td1_index(bytes@));

    // TD1
    let td1_byte: Option<u8> = if (y1 / 8) % 2 == 1 && index < bytes.len() {
        let t = bytes[index];
        index += 1;
        Some(t)
    } else {
        None
    };

    // TD2, only reachable through TD1.
    let td2_byte: Option<u8> = if let Some(t1) = td1_byte {
        let y2: u8 = t1 / 16;
        if y2 % 2 == 1 {
            index += 1;
        }
        if (y2 / 2) % 2 == 1 {
            index += 1;
        }
        if (y2 / 4) % 2 == 1 {
            index += 1;
        }
        if (y2 / 8) % 2 == 1 && index < bytes.len() {
            Some(bytes[index])
        } else {
            None
        }
    } else {
        None
    };

    if let Some(t2) = td2_byte {
        assert(has_td2(bytes@) && t2 == td2(bytes@));
        return if t2 % 16 == 1 {
            Protocol::T1
        } else {
            Protocol::T0
        };
    }

    if let Some(t1) = td1_byte {
        return if t1 % 16 == 1 {
            Protocol::T1
        } else {
            Protocol::T0
        };
    }

    Protocol::T0
}

/// Parses a hex-encoded ATR and extracts the negotiated transport protocol.
/// Malformed input never fails: it yields T=0.
pub fn parse_atr_and_get_protocol(atr: &str) -> (p: Protocol)
    ensures
        p == protocol_of_atr_hex(atr@),
{
    let bytes = match decode_hex(atr) {
        Some(b) => b,
        None => {
            return Protocol::T0;
        },
    };
    parse_atr_bytes(&bytes)
}

/// When TD2 is present and names T=1, the parser answers T=1 — whatever
/// TD1's own protocol code says.
pub proof fn lemma_td2_overrides_td1(b: Seq<u8>)
    requires
        has_td2(b),
        nibble_lo(td2(b)) == 1,
    ensures
        protocol_of_atr_bytes(b) == Protocol::T1,
{
}

/// Without TD1 (and hence without TD2) the protocol defaults to T=0.
pub proof fn lemma_no_td_defaults_t0(b: Seq<u8>)
    requires
        !has_td1(b),
    ensures
        protocol_of_atr_bytes(b) == Protocol::T0,
{
}

/// Input that is not hex — truncated to an odd digit, or holding other
/// characters — falls back to T=0; the parser never fails.
pub proof fn lemma_invalid_hex_is_t0(s: Seq<char>)
    requires
        !hex_valid(s),
    ensures
        protocol_of_atr_hex(s) == Protocol::T0,
{
}

} // verus!
