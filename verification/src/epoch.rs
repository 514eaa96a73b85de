//! The range of epochs that a key is valid for.

use vstd::prelude::*;
use crate::error::WrapperError;

verus! {

/// Checks epochs against the range of a key.
pub struct EpochValidator;

impl EpochValidator {
    /// Checks, when a key is made, that its range of epochs ends within the
    /// lifetime of the scheme: `activation_epoch + num_active_epochs <= lifetime`.
    ///
    /// The error names the end of the range as the epoch out of range, or,
    /// where that end is no 32-bit number, the activation epoch and
    /// `u32::MAX` as the end.
    pub fn validate_epoch_range(
        activation_epoch: u32,
        num_active_epochs: u32,
        lifetime: u32,
    ) -> (res: Result<(), WrapperError>)
        ensures
            res is Ok <==> activation_epoch + num_active_epochs <= lifetime,
            res is Err && activation_epoch + num_active_epochs <= u32::MAX ==> res->Err_0 == (
            WrapperError::EpochOutOfRange {
                epoch: (activation_epoch + num_active_epochs) as u32,
                activation_epoch,
                end_epoch: (activation_epoch + num_active_epochs) as u32,
                lifetime,
            }),
            activation_epoch + num_active_epochs > u32::MAX ==> res->Err_0 == (
            WrapperError::EpochOutOfRange {
                epoch: activation_epoch,
                activation_epoch,
                end_epoch: u32::MAX,
                lifetime,
            }),
    {
        let end_epoch: u32 = match activation_epoch.checked_add(num_active_epochs) {
            Some(end) => end,
            None => {
                return Err(
                    WrapperError::EpochOutOfRange {
                        epoch: activation_epoch,
                        activation_epoch,
                        end_epoch: u32::MAX,
                        lifetime,
                    },
                );
            },
        };
        if end_epoch > lifetime {
            return Err(
                WrapperError::EpochOutOfRange {
                    epoch: end_epoch,
                    activation_epoch,
                    end_epoch,
                    lifetime,
                },
            );
        }
        Ok(())
    }

    /// Checks, when a key signs, that the epoch lies in the range of the key:
    /// `activation_epoch <= epoch < activation_epoch + num_active_epochs`,
    /// where the end of the range is a 32-bit number.
    ///
    /// The error names the epoch, the range and its size, or, where the end
    /// of the range is no 32-bit number, `u32::MAX` as end and as size.
    pub fn validate_epoch(
        epoch: u32,
        activation_epoch: u32,
        num_active_epochs: u32,
    ) -> (res: Result<(), WrapperError>)
        ensures
            res is Ok <==> activation_epoch <= epoch < activation_epoch + num_active_epochs
                <= u32::MAX,
            res is Err && activation_epoch + num_active_epochs <= u32::MAX ==> res->Err_0 == (
            WrapperError::EpochOutOfRange {
                epoch,
                activation_epoch,
                end_epoch: (activation_epoch + num_active_epochs) as u32,
                lifetime: num_active_epochs,
            }),
            activation_epoch + num_active_epochs > u32::MAX ==> res->Err_0 == (
            WrapperError::EpochOutOfRange {
                epoch,
                activation_epoch,
                end_epoch: u32::MAX,
                lifetime: u32::MAX,
            }),
    {
        let end_epoch: u32 = match activation_epoch.checked_add(num_active_epochs) {
            Some(end) => end,
            None => {
                return Err(
                    WrapperError::EpochOutOfRange {
                        epoch,
                        activation_epoch,
                        end_epoch: u32::MAX,
                        lifetime: u32::MAX,
                    },
                );
            },
        };
        if epoch < activation_epoch || epoch >= end_epoch {
            return Err(
                WrapperError::EpochOutOfRange {
                    epoch,
                    activation_epoch,
                    end_epoch,
                    lifetime: end_epoch - activation_epoch,
                },
            );
        }
        Ok(())
    }
}

} // verus!
