//! What is decided before the signature scheme is called: whether a range
//! of epochs fits the lifetime of a parameter set, whether an epoch lies in
//! the range of a key, and which digest stands for a message.

use vstd::prelude::*;
use crate::config::{ParameterMetadata, ParameterSet};
use crate::epoch::EpochValidator;
use crate::error::WrapperError;
use crate::hash::sha256;
use crate::message::MessagePreprocessor;

verus! {

/// The epochs that a key is valid for, with what its parameter set comes to.
#[derive(Debug, Clone)]
pub struct KeyRange {
    pub activation_epoch: u32,
    pub num_active_epochs: u32,
    pub params: ParameterMetadata,
}

/// What the signature scheme is handed to sign or to verify: the epoch and
/// the digest of the message.
#[derive(Debug, Clone)]
pub struct SigningInput {
    pub epoch: u32,
    pub digest: [u8; 32],
}

/// The checks and the hashing that come before a call of the signature scheme.
pub struct XmssWrapper;

impl XmssWrapper {
    /// The range of a key that is to be generated for `params`, if it ends
    /// within the lifetime of the set; else the error of
    /// `EpochValidator::validate_epoch_range`.
    pub fn key_gen(
        params: ParameterSet,
        activation_epoch: u32,
        num_active_epochs: u32,
    ) -> (res: Result<KeyRange, WrapperError>)
        ensures
            res is Ok <==> activation_epoch + num_active_epochs <= params.lifetime(),
            res is Ok ==> {
                &&& res->Ok_0.activation_epoch == activation_epoch
                &&& res->Ok_0.num_active_epochs == num_active_epochs
                &&& params.describes(res->Ok_0.params)
            },
            res is Err && activation_epoch + num_active_epochs <= u32::MAX ==> res->Err_0 == (
            WrapperError::EpochOutOfRange {
                epoch: (activation_epoch + num_active_epochs) as u32,
                activation_epoch,
                end_epoch: (activation_epoch + num_active_epochs) as u32,
                lifetime: params.lifetime(),
            }),
            activation_epoch + num_active_epochs > u32::MAX ==> res->Err_0 == (
            WrapperError::EpochOutOfRange {
                epoch: activation_epoch,
                activation_epoch,
                end_epoch: u32::MAX,
                lifetime: params.lifetime(),
            }),
    {
        let metadata = params.metadata();
        match EpochValidator::validate_epoch_range(
            activation_epoch,
            num_active_epochs,
            metadata.lifetime,
        ) {
            Ok(()) => Ok(KeyRange { activation_epoch, num_active_epochs, params: metadata }),
            Err(e) => Err(e),
        }
    }

    /// What is to be signed for `message` at `epoch`, if the epoch lies in
    /// the range of the key; else the error of `EpochValidator::validate_epoch`.
    pub fn sign(sk: &KeyRange, epoch: u32, message: &[u8]) -> (res: Result<
        SigningInput,
        WrapperError,
    >)
        ensures
            res is Ok <==> sk.activation_epoch <= epoch < sk.activation_epoch
                + sk.num_active_epochs <= u32::MAX,
            res is Ok ==> res->Ok_0.epoch == epoch && res->Ok_0.digest@ == sha256(message@),
            res is Err && sk.activation_epoch + sk.num_active_epochs <= u32::MAX ==> res->Err_0
                == (WrapperError::EpochOutOfRange {
                epoch,
                activation_epoch: sk.activation_epoch,
                end_epoch: (sk.activation_epoch + sk.num_active_epochs) as u32,
                lifetime: sk.num_active_epochs,
            }),
            sk.activation_epoch + sk.num_active_epochs > u32::MAX ==> res->Err_0 == (
            WrapperError::EpochOutOfRange {
                epoch,
                activation_epoch: sk.activation_epoch,
                end_epoch: u32::MAX,
                lifetime: u32::MAX,
            }),
    {
        match EpochValidator::validate_epoch(epoch, sk.activation_epoch, sk.num_active_epochs) {
            Ok(()) => Ok(SigningInput { epoch, digest: MessagePreprocessor::preprocess(message) }),
            Err(e) => Err(e),
        }
    }

    /// What a signature over `message` at `epoch` is verified against.
    pub fn verify(epoch: u32, message: &[u8]) -> (input: SigningInput)
        ensures
            input.epoch == epoch,
            input.digest@ == sha256(message@),
    {
        SigningInput { epoch, digest: MessagePreprocessor::preprocess(message) }
    }

    /// What a parameter set comes to.
    pub fn metadata(params: ParameterSet) -> (meta: ParameterMetadata)
        ensures
            params.describes(meta),
    {
        params.metadata()
    }
}

} // verus!
