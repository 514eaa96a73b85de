//! The parameter sets that keys are made for, and what follows from each.

use vstd::prelude::*;
use crate::types::TslParams;

verus! {

/// Length in bytes of the message hash that is cut into chain steps.
pub const MESSAGE_HASH_LEN: u16 = 18;

/// Length in bytes of the randomness of a signature.
pub const RAND_LEN: usize = 20;

/// A parameter set: hash function, tree height and Winternitz parameter.
#[derive(Debug, Clone, Copy, PartialEq, Eq, Structural)]
#[allow(non_camel_case_types)]
pub enum ParameterSet {
    /// SHA-256, tree height 18, Winternitz parameter 4.
    SHA256_H18_W4,
    /// SHA-256, tree height 18, Winternitz parameter 8.
    SHA256_H18_W8,
    /// SHA-256, tree height 20, Winternitz parameter 4.
    SHA256_H20_W4,
}

/// What a parameter set comes to.
#[derive(Debug, Clone, PartialEq, Eq)]
pub struct ParameterMetadata {
    pub lifetime: u32,
    pub tree_height: u16,
    pub winternitz_parameter: u16,
    pub hash_function: String,
    pub signature_size_bytes: usize,
    pub public_key_size_bytes: usize,
}

/// The number of chains: the bits of the message hash, cut into pieces of `w`.
pub open spec fn chain_count(w: nat) -> nat
    recommends
        w > 0,
{
    (MESSAGE_HASH_LEN as nat * 8) / w
}

/// The sum of the chain steps that belongs to a Winternitz parameter.
pub open spec fn checksum_target(w: u16) -> u32 {
    if w == 1 {
        8
    } else if w == 2 {
        4
    } else if w == 8 {
        2
    } else {
        3
    }
}

/// The size of a signature: leaf index, randomness, one hash for each chain
/// and one for each level of the tree.
pub open spec fn signature_size(tree_height: nat, w: nat, hash_len: nat) -> nat
    recommends
        w > 0,
{
    4 + RAND_LEN as nat + chain_count(w) * hash_len + tree_height * hash_len
}

impl ParameterSet {
    /// The tree height of the set.
    pub open spec fn height(self) -> u16 {
        match self {
            ParameterSet::SHA256_H18_W4 => 18,
            ParameterSet::SHA256_H18_W8 => 18,
            ParameterSet::SHA256_H20_W4 => 20,
        }
    }

    /// The Winternitz parameter of the set.
    pub open spec fn winternitz(self) -> u16 {
        match self {
            ParameterSet::SHA256_H18_W4 => 4,
            ParameterSet::SHA256_H18_W8 => 8,
            ParameterSet::SHA256_H20_W4 => 4,
        }
    }

    /// The width of a hash of the set in the size estimates.
    pub open spec fn hash_len(self) -> nat {
        match self {
            ParameterSet::SHA256_H18_W4 => 26,
            ParameterSet::SHA256_H18_W8 => 28,
            ParameterSet::SHA256_H20_W4 => 26,
        }
    }

    /// The number of signatures that a key of the set can make: two to the tree height.
    pub open spec fn lifetime(self) -> u32 {
        match self {
            ParameterSet::SHA256_H18_W4 => 262144,
            ParameterSet::SHA256_H18_W8 => 262144,
            ParameterSet::SHA256_H20_W4 => 1048576,
        }
    }

    /// `meta` is what the set comes to: its lifetime, tree height and
    /// Winternitz parameter, SHA-256 as hash function, and the estimated
    /// sizes of a signature and of a public key.
    pub open spec fn describes(self, meta: ParameterMetadata) -> bool {
        &&& meta.lifetime == self.lifetime()
        &&& meta.tree_height == self.height()
        &&& meta.winternitz_parameter == self.winternitz()
        &&& meta.hash_function@ == "SHA-256"@
        &&& meta.signature_size_bytes == signature_size(
            self.height() as nat,
            self.winternitz() as nat,
            self.hash_len(),
        )
        &&& meta.public_key_size_bytes == self.hash_len() + self.height()
    }

    /// The name of the instantiation of the signature scheme that the set stands for.
    pub fn instantiation_type(&self) -> (name: &'static str)
        ensures
            name@ == match *self {
                ParameterSet::SHA256_H18_W4 => "SIGWinternitzLifetime18W4"@,
                ParameterSet::SHA256_H18_W8 => "SIGWinternitzLifetime18W8"@,
                ParameterSet::SHA256_H20_W4 => "SIGWinternitzLifetime20W4"@,
            },
    {
        match self {
            ParameterSet::SHA256_H18_W4 => "SIGWinternitzLifetime18W4",
            ParameterSet::SHA256_H18_W8 => "SIGWinternitzLifetime18W8",
            ParameterSet::SHA256_H20_W4 => "SIGWinternitzLifetime20W4",
        }
    }

    /// What the set comes to: lifetime, tree height, Winternitz parameter,
    /// hash function and the estimated sizes of signature and public key.
    pub fn metadata(&self) -> (meta: ParameterMetadata)
        ensures
            self.describes(meta),
    {
        match self {
            ParameterSet::SHA256_H18_W4 => ParameterMetadata {
                lifetime: 262144,
                tree_height: 18,
                winternitz_parameter: 4,
                hash_function: "SHA-256".to_owned(),
                signature_size_bytes: estimate_signature_size(18, 4, 26),
                public_key_size_bytes: estimate_public_key_size(18, 26),
            },
            ParameterSet::SHA256_H18_W8 => ParameterMetadata {
                lifetime: 262144,
                tree_height: 18,
                winternitz_parameter: 8,
                hash_function: "SHA-256".to_owned(),
                signature_size_bytes: estimate_signature_size(18, 8, 28),
                public_key_size_bytes: estimate_public_key_size(18, 28),
            },
            ParameterSet::SHA256_H20_W4 => ParameterMetadata {
                lifetime: 1048576,
                tree_height: 20,
                winternitz_parameter: 4,
                hash_function: "SHA-256".to_owned(),
                signature_size_bytes: estimate_signature_size(20, 4, 26),
                public_key_size_bytes: estimate_public_key_size(20, 26),
            },
        }
    }
}

impl ParameterMetadata {
    /// The parameters of the encoder that belong to the metadata: one chain
    /// for each piece of `w` bits of the message hash, and the sum of steps
    /// that belongs to `w`.
    pub fn to_tsl_params(&self) -> (params: TslParams)
        requires
            self.winternitz_parameter != 0,
        ensures
            params.w == self.winternitz_parameter,
            params.v == chain_count(self.winternitz_parameter as nat),
            params.d0 == checksum_target(self.winternitz_parameter),
            params.security_bits == 128,
            params.tree_height == self.tree_height,
    {
        let w: u16 = self.winternitz_parameter;
        let v: u16 = (MESSAGE_HASH_LEN * 8) / w;
        let d0: u32 = calculate_d0(w);
        TslParams { w, v, d0, security_bits: 128, tree_height: self.tree_height }
    }
}

/// The estimated size in bytes of a signature.
pub fn estimate_signature_size(tree_height: u16, w: u16, hash_len: usize) -> (size: usize)
    requires
        w != 0,
        signature_size(tree_height as nat, w as nat, hash_len as nat) <= usize::MAX,
    ensures
        size == signature_size(tree_height as nat, w as nat, hash_len as nat),
{
    let v: usize = (MESSAGE_HASH_LEN as usize * 8) / (w as usize);
    assert(v * hash_len >= 0 && tree_height * hash_len >= 0) by (nonlinear_arith);
    4 + RAND_LEN + (v * hash_len) + (tree_height as usize * hash_len)
}

/// The estimated size in bytes of a public key: a root and a parameter.
pub fn estimate_public_key_size(parameter_len: u16, hash_len: usize) -> (size: usize)
    requires
        hash_len + parameter_len <= usize::MAX,
    ensures
        size == hash_len + parameter_len,
{
    hash_len + parameter_len as usize
}

/// The sum of the chain steps that belongs to a Winternitz parameter.
pub fn calculate_d0(w: u16) -> (d0: u32)
    ensures
        d0 == checksum_target(w),
{
    match w {
        1 => 8,
        2 => 4,
        4 => 3,
        8 => 2,
        _ => 3,
    }
}

} // verus!
