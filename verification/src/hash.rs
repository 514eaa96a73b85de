//! SHA-256 and the hash primitives that are built on it.

use vstd::prelude::*;
use openvm_sha2::Digest;

verus! {

/// Width in bytes of a hash-domain element (seven packed 4-byte field elements).
pub const NODE_BYTES: usize = 28;

/// Width in bytes of the public per-key parameter (five packed 4-byte field elements).
pub const PARAMETER_BYTES: usize = 20;

/// A hash-domain element.
pub type Node = [u8; NODE_BYTES];

/// The public domain-separation seed bound to a key.
pub type Parameter = [u8; PARAMETER_BYTES];

/// The SHA-256 digest of a byte string.
pub uninterp spec fn sha256(input: Seq<u8>) -> Seq<u8>;

/// The digest cut down to the width of a node: its first `NODE_BYTES` bytes.
pub open spec fn node_hash(input: Seq<u8>) -> Seq<u8> {
    sha256(input).subrange(0, NODE_BYTES as int)
}

/// Calls `openvm_sha2::Sha256::digest`, the one-shot function of the
/// `Digest` trait (off the proving target the type is `sha2::Sha256`), and
/// copies the 32-byte output into an array. The contract names the digest
/// `sha256(input@)`; nothing else is claimed of it.
#[verifier::external_body]
fn sha256_digest(input: &[u8]) -> (out: [u8; 32])
    ensures
        out@ == sha256(input@),
{
    openvm_sha2::Sha256::digest(input).into()
}

/// SHA-256 of `input`.
pub fn sha256_bytes(input: &[u8]) -> (out: [u8; 32])
    ensures
        out@ == sha256(input@),
{
    sha256_digest(input)
}

/// SHA-256 of `input`, written into `out`.
pub fn set_sha256_bytes(input: &[u8], out: &mut [u8; 32])
    ensures
        final(out)@ == sha256(input@),
{
    *out = sha256_digest(input);
}

/// SHA-256 of `message` followed by `randomness`.
pub fn hash_message_randomness(message: &[u8], randomness: &[u8]) -> (out: [u8; 32])
    ensures
        out@ == sha256(message@ + randomness@),
{
    let mut buf: Vec<u8> = Vec::new();
    buf.extend_from_slice(message);
    buf.extend_from_slice(randomness);
    assert(buf@ =~= message@ + randomness@);
    sha256_digest(buf.as_slice())
}

/// SHA-256 of `input`, truncated to the node width.
pub fn truncated_sha256(input: &[u8]) -> (out: Node)
    ensures
        out@ == node_hash(input@),
{
    let digest = sha256_digest(input);
    let mut truncated: Node = [0u8; NODE_BYTES];
    let mut i: usize = 0;
    while i < NODE_BYTES
        invariant
            i <= NODE_BYTES,
            forall|j: int| 0 <= j < i ==> truncated@[j] == digest@[j],
        decreases NODE_BYTES - i,
    {
        truncated[i] = digest[i];
        i += 1;
    }
    assert(truncated@ =~= node_hash(input@));
    truncated
}

} // verus!
