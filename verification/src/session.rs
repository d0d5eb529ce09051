//! Card session model: recovery semantics and identifier retrieval.
//!
//! A session owns one reader slot for the lifetime of one card insertion.
//! The hardware handle itself, and the connect/reconnect/recreate/transmit
//! calls on it, belong to the surrounding application; what is decided about
//! their outcomes is here: the transmit-with-recovery rule (one recreate,
//! one retry, then a fixed two-byte failure sentinel instead of an error),
//! and the card identifier read from the fixed file-select/read-binary
//! exchange, cached once per insertion.

use vstd::prelude::*;
use vstd::string::*;
use crate::atr::Protocol;
use crate::config::clone_opt_string;
use crate::hexcodec::{hex_valid, hex_bytes, upper_hex_encoding, decode_hex, encode_hex_upper};
use crate::strutil::str_eq;

verus! {

/// Largest response a transmit can hand back, in bytes.
pub const MAX_BUFFER_SIZE: usize = 260;

/// Errors of the card layer.
#[derive(Debug)]
pub enum SmartCardError {
    /// The reader is no longer available or not recognised.
    UnknownReader,
    /// Any other failure, with its description.
    Other(String),
}

impl SmartCardError {
    /// The error's description.
    pub fn message(&self) -> (r: String)
        ensures
            self is UnknownReader ==> r@ == "UnknownReader"@,
            self matches SmartCardError::Other(s) ==> r@ == "Other: "@ + s@,
    {
        match self {
            SmartCardError::UnknownReader => String::from_str("UnknownReader"),
            SmartCardError::Other(s) => {
                let mut m = String::from_str("Other: ");
                m.append(s.as_str());
                m
            },
        }
    }
}

/// Sorts a hardware-layer error by its message, the way the rest of the
/// core tells them apart: a message naming `UnknownReader` is that error,
/// anything else is carried as it is.
pub fn classify_card_error(message: &str) -> (r: SmartCardError)
    ensures
        crate::strutil::contains_sub(message@, "UnknownReader"@) ==> r is UnknownReader,
        !crate::strutil::contains_sub(message@, "UnknownReader"@) ==> (r matches
            SmartCardError::Other(m) && m@ == message@),
{
    proof {
        reveal_strlit("UnknownReader");
    }
    if crate::strutil::str_contains(message, "UnknownReader") {
        SmartCardError::UnknownReader
    } else {
        SmartCardError::Other(message.to_owned())
    }
}

/// The session's model: the reader it owns, the protocol the ATR
/// negotiated, and the card identifier once it has been read. The exclusive
/// hardware handle that goes with it lives in the application.
#[derive(Debug)]
pub struct ManagedCard {
    pub reader_name: String,
    pub protocol: Protocol,
    pub iccid: Option<String>,
}

/// The APDU that selects the identifier's elementary file.
pub fn select_ef_icc_apdu() -> (r: &'static str)
    ensures
        r@ == "00A4020C020002"@,
{
    "00A4020C020002"
}

/// The APDU that reads the identifier's bytes.
pub fn read_binary_apdu() -> (r: &'static str)
    ensures
        r@ == "00B0000108"@,
{
    "00B0000108"
}

/// The fixed two-byte status meaning "no precise diagnosis", hex-encoded.
pub fn failure_sentinel() -> (r: String)
    ensures
        r@ == "6F00"@,
{
    String::from_str("6F00")
}

/// The response with a trailing success status stripped: when it ends in
/// `9000`, those four digits go; otherwise it stays whole.
pub open spec fn strip_success_status(s: Seq<char>) -> Seq<char> {
    if s.len() >= 4 && s.skip(s.len() - 4) == "9000"@ {
        s.take(s.len() - 4)
    } else {
        s
    }
}

impl ManagedCard {
    /// A fresh session on a reader: no identifier read yet.
    pub fn new(reader_name: &str, protocol: Protocol) -> (r: ManagedCard)
        ensures
            r.reader_name@ == reader_name@,
            r.protocol == protocol,
            r.iccid is None,
    {
        ManagedCard { reader_name: reader_name.to_owned(), protocol, iccid: None }
    }

    /// The cached identifier, if one was read.
    pub fn cached_iccid(&self) -> (r: Option<String>)
        ensures
            r == self.iccid,
    {
        clone_opt_string(&self.iccid)
    }

    /// Stores the identifier — once. A second store changes nothing: the
    /// identifier never changes after creation.
    pub fn set_iccid_once(&mut self, value: String) -> (set: bool)
        ensures
            old(self).iccid is None ==> final(self).iccid == Some(value) && set,
            old(self).iccid is Some ==> *final(self) == *old(self) && !set,
            final(self).reader_name == old(self).reader_name,
            final(self).protocol == old(self).protocol,
    {
        match &self.iccid {
            Some(_) => false,
            None => {
                self.iccid = Some(value);
                true
            },
        }
    }

    /// What transmit-with-recovery answers, given the outcomes of the first
    /// transmit, the recreate, and the retry: the first response when the
    /// first transmit worked; the retry's response when recreate and retry
    /// worked; and the failure sentinel in every other case — never an
    /// error.
    pub fn send_apdu_outcome(
        first: Option<String>,
        recreate_ok: bool,
        retry: Option<String>,
    ) -> (r: String)
        ensures
            first matches Some(s) ==> r == s,
            first is None && !recreate_ok ==> r@ == "6F00"@,
            first is None && recreate_ok && retry is None ==> r@ == "6F00"@,
            first is None && recreate_ok ==> (retry matches Some(s) ==> r == s),
    {
        match first {
            Some(s) => s,
            None => {
                if !recreate_ok {
                    failure_sentinel()
                } else {
                    match retry {
                        Some(s) => s,
                        None => failure_sentinel(),
                    }
                }
            },
        }
    }

    /// The card identifier carried by the read-binary response: the trailing
    /// success status is stripped, the rest is decoded from hex and
    /// re-encoded uppercase. A response that is not hex is a decode error.
    pub fn iccid_from_read_response(read_response: &str) -> (r: Result<String, SmartCardError>)
        ensures
            r is Ok <==> hex_valid(strip_success_status(read_response@)),
            r is Ok ==> r->Ok_0@ == upper_hex_encoding(
                hex_bytes(strip_success_status(read_response@)),
            ),
            r matches Err(e) ==> e matches SmartCardError::Other(m) && m@
                == "Failed to decode ICCID hex"@,
    {
        let n = read_response.unicode_len();
        let stripped: &str = if n >= 4 {
            let tail = read_response.substring_char(n - 4, n);
            if str_eq(tail, "9000") {
                read_response.substring_char(0, n - 4)
            } else {
                read_response
            }
        } else {
            read_response
        };
        proof {
            assert(stripped@ == strip_success_status(read_response@));
        }
        match decode_hex(stripped) {
            Some(bytes) => Ok(encode_hex_upper(&bytes)),
            None => Err(SmartCardError::Other(String::from_str("Failed to decode ICCID hex"))),
        }
    }

    /// The part of a transmit the session decides: a command that is not
    /// hex never reaches the card, it is a decode error.
    pub fn decode_apdu(apdu_hex: &str) -> (r: Result<Vec<u8>, SmartCardError>)
        ensures
            r is Ok <==> hex_valid(apdu_hex@),
            r is Ok ==> r->Ok_0@ == hex_bytes(apdu_hex@),
            r matches Err(e) ==> e matches SmartCardError::Other(m) && m@ == "Decode error"@,
    {
        match decode_hex(apdu_hex) {
            Some(bytes) => Ok(bytes),
            None => Err(SmartCardError::Other(String::from_str("Decode error"))),
        }
    }
}

} // verus!
