//! The errors of the key-handling layer and their messages.

use vstd::prelude::*;
use crate::text::{decimal, push_decimal, push_text};

verus! {

/// What can go wrong around keys, epochs and conversions.
#[derive(Debug)]
pub enum WrapperError {
    /// The signature scheme reported an error.
    HashSigError(String),
    /// An epoch lies outside the range that a secret key is valid for.
    EpochOutOfRange { epoch: u32, activation_epoch: u32, end_epoch: u32, lifetime: u32 },
    /// A value could not be converted between two representations.
    ConversionError { reason: String },
    /// A message could not be hashed.
    MessageHashingError(String),
    /// A value could not be serialised or read back.
    SerializationError(String),
    /// The parameters are not usable.
    ParameterError(String),
}

impl WrapperError {
    /// The message of the error as a sequence of characters.
    pub open spec fn message_text(self) -> Seq<char> {
        match self {
            WrapperError::HashSigError(detail) => "Hash-sig error: "@ + detail@,
            WrapperError::EpochOutOfRange { epoch, activation_epoch, end_epoch, lifetime } => {
                "Epoch "@ + decimal(epoch as nat) + " outside valid range ["@ + decimal(
                    activation_epoch as nat,
                ) + ", "@ + decimal(end_epoch as nat) + ") for LIFETIME "@ + decimal(
                    lifetime as nat,
                )
            },
            WrapperError::ConversionError { reason } => "Type conversion failed: "@ + reason@,
            WrapperError::MessageHashingError(detail) => "Message hashing failed: "@ + detail@,
            WrapperError::SerializationError(detail) => "Serialization error: "@ + detail@,
            WrapperError::ParameterError(detail) => "Invalid parameter configuration: "@
                + detail@,
        }
    }

    /// The message of the error, for a reader.
    pub fn message(&self) -> (text: String)
        ensures
            text@ == self.message_text(),
    {
        let mut text = String::new();
        match self {
            WrapperError::HashSigError(detail) => {
                push_text(&mut text, "Hash-sig error: ");
                push_text(&mut text, detail.as_str());
            },
            WrapperError::EpochOutOfRange { epoch, activation_epoch, end_epoch, lifetime } => {
                push_text(&mut text, "Epoch ");
                push_decimal(&mut text, *epoch as u64);
                push_text(&mut text, " outside valid range [");
                push_decimal(&mut text, *activation_epoch as u64);
                push_text(&mut text, ", ");
                push_decimal(&mut text, *end_epoch as u64);
                push_text(&mut text, ") for LIFETIME ");
                push_decimal(&mut text, *lifetime as u64);
            },
            WrapperError::ConversionError { reason } => {
                push_text(&mut text, "Type conversion failed: ");
                push_text(&mut text, reason.as_str());
            },
            WrapperError::MessageHashingError(detail) => {
                push_text(&mut text, "Message hashing failed: ");
                push_text(&mut text, detail.as_str());
            },
            WrapperError::SerializationError(detail) => {
                push_text(&mut text, "Serialization error: ");
                push_text(&mut text, detail.as_str());
            },
            WrapperError::ParameterError(detail) => {
                push_text(&mut text, "Invalid parameter configuration: ");
                push_text(&mut text, detail.as_str());
            },
        }
        assert(text@ =~= self.message_text());
        text
    }
}

} // verus!
