//! Flash loans: what is decided before the receiver is called.
use vstd::prelude::*;
use crate::error::ProtocolError;
use crate::governance::{truncated_quotient, BPS_DENOMINATOR};

verus! {

/// The fee on a flash loan of `amount` at `fee_bps` basis points, rounded towards zero.
pub open spec fn flash_fee(amount: i128, fee_bps: i128) -> int {
    truncated_quotient(amount * fee_bps, BPS_DENOMINATOR as int)
}

/// The flash-loan operations.
pub struct FlashLoan;

impl FlashLoan {
    /// Settles the terms of a flash loan of `amount` at `fee_bps` basis points: the loan is
    /// refused unless the amount is positive, and otherwise goes ahead against the fee that
    /// is handed back.
    ///
    /// Guarding against re-entry, calling the receiver and announcing the loan are the
    /// caller's part, around this.
    pub fn _execute(amount: i128, fee_bps: i128) -> (fee: Result<i128, ProtocolError>)
        requires
            amount > 0 ==> i128::MIN <= amount * fee_bps <= i128::MAX,
        ensures
            fee == if amount <= 0 {
                Err::<i128, ProtocolError>(ProtocolError::InvalidAmount)
            } else {
                Ok::<i128, ProtocolError>(flash_fee(amount, fee_bps) as i128)
            },
    {
        if amount <= 0 {
            return Err(ProtocolError::InvalidAmount);
        }
        Ok((amount * fee_bps) / BPS_DENOMINATOR)
    }
}

} // verus!
