//! Keys and signatures of the field-based scheme as the byte vectors that
//! verification takes: each field element as four bytes, least significant
//! byte first.

use vstd::prelude::*;
use crate::hex::{word_bytes, words_to_bytes};
use crate::text::{decimal, push_decimal, push_text};

verus! {

/// Number of field elements of a hash-domain element.
pub const POSEIDON_HASH_LEN_FE: usize = 7;

/// Number of field elements of the public parameter.
pub const POSEIDON_PARAMETER_LEN_FE: usize = 5;

/// Number of field elements of the randomness of a signature.
pub const POSEIDON_RANDOMNESS_LEN_FE: usize = 5;

/// Number of bytes of a field element.
pub const POSEIDON_FE_BYTES: usize = 4;

/// Number of chains of the instantiation with Winternitz parameter 1.
pub const WINTERNITZ_W1_NUM_CHAINS: usize = 163;

/// Height of the Merkle tree for a lifetime of 2^18.
pub const WINTERNITZ_TREE_HEIGHT: usize = 18;

/// A public key as canonical field values.
#[derive(Debug, Clone)]
pub struct RawPublicKey {
    pub root: [u32; 7],
    pub parameter: [u32; 5],
}

/// A signature as canonical field values.
#[derive(Debug, Clone)]
pub struct RawSignature {
    pub co_path: Vec<[u32; 7]>,
    pub rho: [u32; 5],
    pub hashes: Vec<[u32; 7]>,
}

/// A public key as byte vectors.
#[derive(Debug, Clone)]
pub struct ExportedPublicKey {
    pub root: Vec<u8>,
    pub parameter: Vec<u8>,
}

/// A signature as byte vectors.
#[derive(Debug, Clone)]
pub struct ExportedSignature {
    pub randomness: Vec<u8>,
    pub chain_hashes: Vec<Vec<u8>>,
    pub auth_path: Vec<Vec<u8>>,
}

/// Why a key or a signature could not be exported.
#[derive(Debug)]
pub enum HashsigExportError {
    /// The object could not be serialised.
    Serialization(String),
    /// The signature does not hold as many chains as the instantiation has.
    UnexpectedChainCount { expected: usize, actual: usize },
}

impl HashsigExportError {
    /// The message of the error as a sequence of characters.
    pub open spec fn message_text(self) -> Seq<char> {
        match self {
            HashsigExportError::Serialization(detail) => "failed to serialize hash-sig object: "@
                + detail@,
            HashsigExportError::UnexpectedChainCount { expected, actual } => {
                "unexpected chain count "@ + decimal(actual as nat) + " (expected "@ + decimal(
                    expected as nat,
                ) + ")"@
            },
        }
    }

    /// The message of the error, for a reader.
    pub fn message(&self) -> (text: String)
        ensures
            text@ == self.message_text(),
    {
        let mut text = String::new();
        match self {
            HashsigExportError::Serialization(detail) => {
                push_text(&mut text, "failed to serialize hash-sig object: ");
                push_text(&mut text, detail.as_str());
            },
            HashsigExportError::UnexpectedChainCount { expected, actual } => {
                push_text(&mut text, "unexpected chain count ");
                push_decimal(&mut text, *actual as u64);
                push_text(&mut text, " (expected ");
                push_decimal(&mut text, *expected as u64);
                push_text(&mut text, ")");
            },
        }
        assert(text@ =~= self.message_text());
        text
    }
}

/// The bytes of each of the domain elements.
pub open spec fn domain_bytes(domains: Seq<[u32; 7]>) -> Seq<Seq<u8>> {
    Seq::new(domains.len(), |i: int| word_bytes(domains[i]@, 7))
}

/// The byte vectors hold the given byte strings.
pub open spec fn rows_hold(rows: Seq<Vec<u8>>, bytes: Seq<Seq<u8>>) -> bool {
    &&& rows.len() == bytes.len()
    &&& forall|i: int| 0 <= i < rows.len() ==> (#[trigger] rows[i])@ == bytes[i]
}

/// The bytes of field elements, four for each, least significant byte first.
pub fn field_array_to_bytes(limbs: &[u32]) -> (bytes: Vec<u8>)
    ensures
        bytes@ == word_bytes(limbs@, limbs@.len()),
{
    words_to_bytes(limbs)
}

/// The bytes of each domain element of a list.
pub fn domains_to_bytes(domains: &[[u32; 7]]) -> (rows: Vec<Vec<u8>>)
    ensures
        rows_hold(rows@, domain_bytes(domains@)),
{
    let mut rows: Vec<Vec<u8>> = Vec::new();
    let mut i: usize = 0;
    while i < domains.len()
        invariant
            i <= domains@.len(),
            rows@.len() == i,
            forall|j: int| 0 <= j < i ==> (#[trigger] rows@[j])@ == domain_bytes(domains@)[j],
        decreases domains@.len() - i,
    {
        rows.push(field_array_to_bytes(domains[i].as_slice()));
        i += 1;
    }
    rows
}

/// A public key as byte vectors: its root and its parameter.
pub fn export_public_key(raw: &RawPublicKey) -> (pk: ExportedPublicKey)
    ensures
        pk.root@ == word_bytes(raw.root@, 7),
        pk.parameter@ == word_bytes(raw.parameter@, 5),
{
    ExportedPublicKey {
        root: field_array_to_bytes(raw.root.as_slice()),
        parameter: field_array_to_bytes(raw.parameter.as_slice()),
    }
}

/// A signature as byte vectors: its randomness, its chain hashes and its
/// authentication path. A signature that does not hold exactly
/// `WINTERNITZ_W1_NUM_CHAINS` chain hashes is refused.
pub fn export_signature(raw: &RawSignature) -> (res: Result<
    ExportedSignature,
    HashsigExportError,
>)
    ensures
        res is Ok <==> raw.hashes@.len() == WINTERNITZ_W1_NUM_CHAINS,
        res is Ok ==> {
            &&& res->Ok_0.randomness@ == word_bytes(raw.rho@, 5)
            &&& rows_hold(res->Ok_0.chain_hashes@, domain_bytes(raw.hashes@))
            &&& rows_hold(res->Ok_0.auth_path@, domain_bytes(raw.co_path@))
        },
        res is Err ==> res->Err_0 == (HashsigExportError::UnexpectedChainCount {
            expected: WINTERNITZ_W1_NUM_CHAINS,
            actual: raw.hashes@.len() as usize,
        }),
{
    if raw.hashes.len() != WINTERNITZ_W1_NUM_CHAINS {
        return Err(
            HashsigExportError::UnexpectedChainCount {
                expected: WINTERNITZ_W1_NUM_CHAINS,
                actual: raw.hashes.len(),
            },
        );
    }
    Ok(
        ExportedSignature {
            randomness: field_array_to_bytes(raw.rho.as_slice()),
            chain_hashes: domains_to_bytes(raw.hashes.as_slice()),
            auth_path: domains_to_bytes(raw.co_path.as_slice()),
        },
    )
}

} // verus!
