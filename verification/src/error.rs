//! The ways in which decoding can fail.

use vstd::prelude::*;

verus! {

/// Why a ciphertext or a padded buffer was rejected. Every kind is local to
/// one attempt; none says anything about authenticity.
#[derive(Clone, Copy, Debug, PartialEq, Eq, Structural)]
pub enum CryptoError {
    /// The ciphertext length is not a multiple of the block size.
    InvalidLength,
    /// The nonce does not have the fixed nonce size.
    InvalidNonceLength,
    /// The padded buffer is shorter than the length prefix.
    MalformedLength,
    /// The padded buffer length is not a multiple of the block size.
    BadBlockAlignment,
    /// The declared payload length reaches past the end of the buffer.
    LengthOverflow,
}

impl CryptoError {
    /// The text that `message` returns for each kind.
    pub open spec fn message_spec(self) -> Seq<char> {
        match self {
            CryptoError::InvalidLength => "Encrypted data length not multiple of block size"@,
            CryptoError::InvalidNonceLength => "Invalid nonce length"@,
            CryptoError::MalformedLength => "Padded data too short to contain length"@,
            CryptoError::BadBlockAlignment => "Padded data length not multiple of block size"@,
            CryptoError::LengthOverflow => "Stored length exceeds padded data length"@,
        }
    }

    /// A short description of the failure, fit for a log line.
    pub fn message(&self) -> (text: &'static str)
        ensures
            text@ == self.message_spec(),
    {
        match self {
            CryptoError::InvalidLength => "Encrypted data length not multiple of block size",
            CryptoError::InvalidNonceLength => "Invalid nonce length",
            CryptoError::MalformedLength => "Padded data too short to contain length",
            CryptoError::BadBlockAlignment => "Padded data length not multiple of block size",
            CryptoError::LengthOverflow => "Stored length exceeds padded data length",
        }
    }
}

} // verus!
