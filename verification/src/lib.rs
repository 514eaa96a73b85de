//! Batch verification of hash-based (XMSS/WOTS-style) signatures.
//!
//! The crate maps a message digest to a bounded-sum vector of chain steps,
//! walks the one-way hash chains to their tops, rebuilds the Merkle root
//! along an authentication path and compares it with the public key. A
//! batch of such signatures is checked as a whole and bound to a 32-byte
//! commitment of the public statement.

pub mod aggregator;
pub mod bytes;
pub mod config;
pub mod epoch;
pub mod error;
pub mod hash;
pub mod hashsig_export;
pub mod hex;
pub mod layer;
pub mod message;
pub mod output;
pub mod text;
pub mod transcript;
pub mod tsl;
pub mod types;
pub mod wrapper;
pub mod xmss_verify;
