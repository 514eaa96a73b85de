//! Messages of any length become 32-byte digests before they are signed.

use vstd::prelude::*;
use crate::hash::{sha256, sha256_bytes};

verus! {

/// Hashes messages down to the 32 bytes that the signature scheme takes.
pub struct MessagePreprocessor;

impl MessagePreprocessor {
    /// The SHA-256 digest of `message`.
    pub fn preprocess(message: &[u8]) -> (digest: [u8; 32])
        ensures
            digest@ == sha256(message@),
    {
        sha256_bytes(message)
    }
}

/// The SHA-256 digest of `message`.
pub fn hash_message_to_digest(message: &[u8]) -> (digest: [u8; 32])
    ensures
        digest@ == sha256(message@),
{
    sha256_bytes(message)
}

} // verus!
