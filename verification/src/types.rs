//! The data of a verification batch: parameters, statement and witness.

use vstd::prelude::*;

verus! {

/// The configuration shared by all signatures of a batch.
///
/// `w` is the base of a chain step, `v` the number of chains, `d0` the sum
/// that the steps of a signature add up to, and `tree_height` the length of
/// an authentication path.
#[derive(Debug, Clone)]
pub struct TslParams {
    pub w: u16,
    pub v: u16,
    pub d0: u32,
    pub security_bits: u16,
    pub tree_height: u16,
}

/// A claim that a message was signed at a leaf position under some key.
#[derive(Debug, Clone)]
pub struct Signature {
    pub leaf_index: u32,
    pub randomness: Vec<u8>,
    pub wots_chain_ends: Vec<Vec<u8>>,
    pub auth_path: Vec<Vec<u8>>,
}

/// A public key: the root of the key's Merkle tree and its public parameter.
#[derive(Debug, Clone)]
pub struct PublicKey {
    pub root: Vec<u8>,
    pub parameter: Vec<u8>,
}

/// The public claim: each of the `k` keys signed the message `m` at epoch `ep`.
#[derive(Debug, Clone)]
pub struct Statement {
    pub k: u32,
    pub ep: u64,
    pub m: Vec<u8>,
    pub public_keys: Vec<PublicKey>,
}

/// The private material that proves a statement.
#[derive(Debug, Clone)]
pub struct Witness {
    pub signatures: Vec<Signature>,
}

/// The outcome of a batch as it is reported.
#[derive(Debug, Clone)]
pub struct VerificationResult {
    pub all_signatures_valid: bool,
    pub num_signatures_verified: usize,
}

/// One unit of work: parameters, statement and witness.
#[derive(Debug, Clone)]
pub struct VerificationBatch {
    pub params: TslParams,
    pub statement: Statement,
    pub witness: Witness,
}

} // verus!
