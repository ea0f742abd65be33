//! The error type shared by every operation of the library.
use vstd::prelude::*;

use crate::hex::{hex_encode, hex_lower};
use crate::text::{decimal, u64_to_decimal};

verus! {

/// Why a hex string could not be decoded.
#[derive(Debug, Clone, Copy, PartialEq, Eq)]
pub enum HexError {
    /// A character that is not a hex digit, and its position in the digits
    /// (counted after an optional `0x` prefix).
    InvalidHexCharacter { c: char, index: usize },
    /// The string has an odd number of characters.
    OddLength,
    /// The decoded length does not match the expected one.
    InvalidStringLength,
}

/// The primary error type for all ENSIP-25 operations.
#[derive(Debug, Clone, PartialEq, Eq)]
pub enum Error {
    /// The input bytes are too short to contain an ERC-7930 header.
    BufferTooShort {
        /// Actual byte length provided.
        len: usize,
    },
    /// The ERC-7930 version field is unsupported.
    UnsupportedVersion {
        /// The version value found in the header.
        version: u16,
    },
    /// The declared lengths inside an ERC-7930 address exceed the buffer.
    TruncatedPayload {
        /// Number of bytes the header says should be there.
        expected: usize,
        /// Number of bytes actually present.
        available: usize,
    },
    /// Both the chain reference and the address are empty.
    EmptyAddress,
    /// A hex string could not be decoded.
    Hex(HexError),
    /// An agent id contains a forbidden character (`[` or `]`).
    InvalidAgentId {
        /// The offending agent id.
        agent_id: String,
    },
    /// An ENS text-record lookup failed; the lookup's own message.
    Ens(String),
    /// An ERC-8004 registry error; its own message.
    Erc8004(String),
}

/// What `{:?}` writes for a character: the character quoted and escaped.
pub uninterp spec fn debug_char_text(c: char) -> Seq<char>;

/// What `{:?}` writes for a string: the string quoted and escaped.
pub uninterp spec fn debug_str_text(s: Seq<char>) -> Seq<char>;

/// Formats a character with std's `Debug` (`format!("{:?}", c)`).
///
/// Trusted: the result is a function of the character alone; which escapes
/// std uses (they follow Unicode tables) is not stated.
#[verifier::external_body]
fn debug_char(c: char) -> (text: String)
    ensures
        text@ == debug_char_text(c),
{
    format!("{:?}", c)
}

/// Formats a string with std's `Debug` (`format!("{:?}", s)`).
///
/// Trusted: the result is a function of the string alone; which escapes std
/// uses (they follow Unicode tables) is not stated.
#[verifier::external_body]
fn debug_str(s: &str) -> (text: String)
    ensures
        text@ == debug_str_text(s@),
{
    format!("{:?}", s)
}

/// `{:#06x}` of a `u16`: `0x` and four lowercase hex digits.
pub open spec fn u16_hex_text(v: u16) -> Seq<char> {
    seq!['0', 'x'] + hex_lower(seq![(v / 256) as u8, (v % 256) as u8])
}

/// The text `{:#06x}` writes for a `u16`.
pub(crate) fn u16_hex(v: u16) -> (text: String)
    ensures
        text@ == u16_hex_text(v),
{
    let mut text = String::from_str("0x");
    let digits = hex_encode(&[(v / 256) as u8, (v % 256) as u8]);
    text.append(digits.as_str());
    proof {
        reveal_strlit("0x");
    }
    text
}

/// The display text of a hex decoding error.
pub open spec fn hex_error_text(e: HexError) -> Seq<char> {
    match e {
        HexError::InvalidHexCharacter { c, index } => "invalid character "@ + debug_char_text(c)
            + " at position "@ + decimal(index as nat),
        HexError::OddLength => "odd number of digits"@,
        HexError::InvalidStringLength => "invalid string length"@,
    }
}

/// The display text of an error.
pub open spec fn error_text(e: Error) -> Seq<char> {
    match e {
        Error::BufferTooShort { len } => "erc7930: buffer too short (need at least 6 bytes, got "@
            + decimal(len as nat) + ")"@,
        Error::UnsupportedVersion { version } => "erc7930: unsupported version "@ + u16_hex_text(
            version,
        ),
        Error::TruncatedPayload { expected, available } => "erc7930: truncated payload (expected "@
            + decimal(expected as nat) + " bytes, have "@ + decimal(available as nat) + ")"@,
        Error::EmptyAddress => "erc7930: both chain reference and address are empty"@,
        Error::Hex(h) => "hex decode error: "@ + hex_error_text(h),
        Error::InvalidAgentId { agent_id } => "agent id must not contain '[' or ']': "@
            + debug_str_text(agent_id@),
        Error::Ens(msg) => "ens error: "@ + msg@,
        Error::Erc8004(msg) => "erc8004 error: "@ + msg@,
    }
}

impl HexError {
    /// The display text of this error.
    pub fn to_string(&self) -> (text: String)
        ensures
            text@ == hex_error_text(*self),
    {
        match self {
            HexError::InvalidHexCharacter { c, index } => {
                let mut text = String::from_str("invalid character ");
                let quoted = debug_char(*c);
                text.append(quoted.as_str());
                text.append(" at position ");
                let pos = u64_to_decimal(*index as u64);
                text.append(pos.as_str());
                text
            },
            HexError::OddLength => String::from_str("odd number of digits"),
            HexError::InvalidStringLength => String::from_str("invalid string length"),
        }
    }
}

impl Error {
    /// The display text of this error.
    pub fn to_string(&self) -> (text: String)
        ensures
            text@ == error_text(*self),
    {
        match self {
            Error::BufferTooShort { len } => {
                let mut text = String::from_str("erc7930: buffer too short (need at least 6 bytes, got ");
                let n = u64_to_decimal(*len as u64);
                text.append(n.as_str());
                text.append(")");
                text
            },
            Error::UnsupportedVersion { version } => {
                let mut text = String::from_str("erc7930: unsupported version ");
                let hex = u16_hex(*version);
                text.append(hex.as_str());
                text
            },
            Error::TruncatedPayload { expected, available } => {
                let mut text = String::from_str("erc7930: truncated payload (expected ");
                let e = u64_to_decimal(*expected as u64);
                text.append(e.as_str());
                text.append(" bytes, have ");
                let a = u64_to_decimal(*available as u64);
                text.append(a.as_str());
                text.append(")");
                text
            },
            Error::EmptyAddress => String::from_str("erc7930: both chain reference and address are empty"),
            Error::Hex(h) => {
                let mut text = String::from_str("hex decode error: ");
                let inner = h.to_string();
                text.append(inner.as_str());
                text
            },
            Error::InvalidAgentId { agent_id } => {
                let mut text = String::from_str("agent id must not contain '[' or ']': ");
                let quoted = debug_str(agent_id.as_str());
                text.append(quoted.as_str());
                text
            },
            Error::Ens(msg) => {
                let mut text = String::from_str("ens error: ");
                text.append(msg.as_str());
                text
            },
            Error::Erc8004(msg) => {
                let mut text = String::from_str("erc8004 error: ");
                text.append(msg.as_str());
                text
            },
        }
    }
}

} // verus!
