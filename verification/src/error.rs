//! The failures of the codec, the framing layer and the handshake.

use crate::hexdump::{hex_number, push_hex_number};
use vstd::prelude::*;
use vstd::string::StringExecFns;

verus! {

/// Why an operation of this library failed. No failure is retried or repaired here: each is
/// handed to the caller as it arose.
#[derive(Clone, Copy, Debug, PartialEq, Eq)]
pub enum Error {
    /// The bytes end before a fixed-width field, or before the declared length of a
    /// variable-length field, is complete.
    Truncated { field: &'static str },
    /// The declared length of a variable-length field is negative.
    InvalidLength { field: &'static str },
    /// The declared length of a variable-length field is above the ceiling.
    SizeLimitExceeded { field: &'static str },
    /// The length of a variable-length field is not a value of its prefix type.
    LengthOverflow { field: &'static str },
    /// The value given for a field is not of the field's wire kind.
    FieldMismatch { field: &'static str },
    /// The number of values given is not the number of fields of the message type.
    FieldCount,
    /// The opcode is the one that no message type may claim.
    ReservedOpcode,
    /// A message type of the union claims the opcode already.
    DuplicateOpcode(u8),
    /// A message without an opcode byte.
    EmptyMessage,
    /// The opcode byte belongs to no message type of the union, and the union has no catch-all.
    UnknownOpcode(u8),
    /// The encoded message is longer than a frame can carry.
    MessageTooLarge,
    /// The length field of a frame is below the size of the length field itself.
    InvalidFrameLength,
    /// A message of the union is not of the requested type.
    TypeMismatch,
    /// The checksum-size byte is none of 0, 1 and 4 to 32.
    InvalidChecksumConfig,
    /// The timestamp is not a number of milliseconds that fits the signed 64-bit field.
    TimestampOutOfRange,
    /// The bytes are no SEC1 encoding of a P-256 public key.
    InvalidPublicKey,
    /// The bytes are no DER encoding of a P-256 ECDSA signature.
    InvalidSignature,
    /// The message is not the one that the handshake expects in its present state.
    UnexpectedMessage,
}

impl Error {
    /// The failure in words. A failure of a field ends with the name of the field, a failure
    /// of an opcode with the opcode byte in hex.
    pub open spec fn spec_message(self) -> Seq<char> {
        match self {
            Error::Truncated { field } => "Insufficient data for "@ + field@,
            Error::InvalidLength { field } => "Negative size declared for "@ + field@,
            Error::SizeLimitExceeded { field } => "Size exceeds maximum allowed for "@ + field@,
            Error::LengthOverflow { field } => "Size does not fit the prefix of "@ + field@,
            Error::FieldMismatch { field } => "Value of the wrong kind for "@ + field@,
            Error::FieldCount => "Wrong number of field values"@,
            Error::ReservedOpcode => "Opcode is reserved"@,
            Error::DuplicateOpcode(byte) => "Opcode claimed already: 0x"@ + hex_number(
                byte as nat,
                2,
            ),
            Error::EmptyMessage => "No opcode found in message"@,
            Error::UnknownOpcode(byte) => "Unknown message opcode: 0x"@ + hex_number(
                byte as nat,
                2,
            ),
            Error::MessageTooLarge => "Message too large"@,
            Error::InvalidFrameLength => "Invalid message length"@,
            Error::TypeMismatch => "Failed to convert message"@,
            Error::InvalidChecksumConfig => "Invalid checksum size"@,
            Error::TimestampOutOfRange => "Timestamp out of range"@,
            Error::InvalidPublicKey => "Failed to parse public key from bytes"@,
            Error::InvalidSignature => "Failed to parse signature from bytes"@,
            Error::UnexpectedMessage => "Message out of order"@,
        }
    }

    /// The failure in words.
    pub fn message(&self) -> (r: String)
        ensures
            r@ == self.spec_message(),
    {
        match self {
            Error::Truncated { field } => {
                let mut text = String::from_str("Insufficient data for ");
                text.append(field);
                text
            },
            Error::InvalidLength { field } => {
                let mut text = String::from_str("Negative size declared for ");
                text.append(field);
                text
            },
            Error::SizeLimitExceeded { field } => {
                let mut text = String::from_str("Size exceeds maximum allowed for ");
                text.append(field);
                text
            },
            Error::LengthOverflow { field } => {
                let mut text = String::from_str("Size does not fit the prefix of ");
                text.append(field);
                text
            },
            Error::FieldMismatch { field } => {
                let mut text = String::from_str("Value of the wrong kind for ");
                text.append(field);
                text
            },
            Error::FieldCount => String::from_str("Wrong number of field values"),
            Error::ReservedOpcode => String::from_str("Opcode is reserved"),
            Error::DuplicateOpcode(byte) => {
                let mut text = String::from_str("Opcode claimed already: 0x");
                push_hex_number(&mut text, *byte as usize, 2);
                text
            },
            Error::EmptyMessage => String::from_str("No opcode found in message"),
            Error::UnknownOpcode(byte) => {
                let mut text = String::from_str("Unknown message opcode: 0x");
                push_hex_number(&mut text, *byte as usize, 2);
                text
            },
            Error::MessageTooLarge => String::from_str("Message too large"),
            Error::InvalidFrameLength => String::from_str("Invalid message length"),
            Error::TypeMismatch => String::from_str("Failed to convert message"),
            Error::InvalidChecksumConfig => String::from_str("Invalid checksum size"),
            Error::TimestampOutOfRange => String::from_str("Timestamp out of range"),
            Error::InvalidPublicKey => String::from_str("Failed to parse public key from bytes"),
            Error::InvalidSignature => String::from_str("Failed to parse signature from bytes"),
            Error::UnexpectedMessage => String::from_str("Message out of order"),
        }
    }
}

} // verus!
