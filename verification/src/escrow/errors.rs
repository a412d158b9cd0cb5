//! The failures of the escrow.

use vstd::prelude::*;

verus! {

/// The failures that the escrow program itself reports.
#[derive(Clone, Copy, Debug, PartialEq, Eq, Structural)]
pub enum EscrowErrorCode {
    AccountNotMutable,
    InsufficientMakerBalance,
    InsufficientTakerBalance,
    InvalidTokenMint,
    InvalidAmount,
    TokenTransferFailed,
    FailedVaultWithdrawal,
    FailedVaultClosure,
    FailedRefundTransfer,
    FailedRefundClosure,
}

impl EscrowErrorCode {
    /// The message that goes with the failure, as text.
    pub open spec fn text(self) -> Seq<char> {
        match self {
            EscrowErrorCode::AccountNotMutable => "Account Not Mutable"@,
            EscrowErrorCode::InsufficientMakerBalance => "Insufficient token balance in maker's account"@,
            EscrowErrorCode::InsufficientTakerBalance => "Insufficient token balance in taker's account"@,
            EscrowErrorCode::InvalidTokenMint => "Invalid token mint - must be different from offered token"@,
            EscrowErrorCode::InvalidAmount => "Amount must be greater than zero"@,
            EscrowErrorCode::TokenTransferFailed => "Token transfer failed"@,
            EscrowErrorCode::FailedVaultWithdrawal => "Failed to withdraw tokens from vault"@,
            EscrowErrorCode::FailedVaultClosure => "Failed to close vault account"@,
            EscrowErrorCode::FailedRefundTransfer => "Failed to refund tokens from vault"@,
            EscrowErrorCode::FailedRefundClosure => "Failed to close vault during refund"@,
        }
    }

    /// The message that goes with the failure.
    pub fn message(&self) -> (r: &'static str)
        ensures
            r@ == self.text(),
    {
        match self {
            EscrowErrorCode::AccountNotMutable => "Account Not Mutable",
            EscrowErrorCode::InsufficientMakerBalance => {
                "Insufficient token balance in maker's account"
            },
            EscrowErrorCode::InsufficientTakerBalance => {
                "Insufficient token balance in taker's account"
            },
            EscrowErrorCode::InvalidTokenMint => {
                "Invalid token mint - must be different from offered token"
            },
            EscrowErrorCode::InvalidAmount => "Amount must be greater than zero",
            EscrowErrorCode::TokenTransferFailed => "Token transfer failed",
            EscrowErrorCode::FailedVaultWithdrawal => "Failed to withdraw tokens from vault",
            EscrowErrorCode::FailedVaultClosure => "Failed to close vault account",
            EscrowErrorCode::FailedRefundTransfer => "Failed to refund tokens from vault",
            EscrowErrorCode::FailedRefundClosure => "Failed to close vault during refund",
        }
    }
}

/// Why an operation of the escrow did not take place. Whatever the failure,
/// the operation has changed nothing.
#[derive(Clone, Copy, Debug, PartialEq, Eq, Structural)]
pub enum EscrowError {
    /// A failure of the program's own.
    Program(EscrowErrorCode),
    /// No offer is recorded for this maker and id: none was made, or it has
    /// been taken or refunded.
    OfferNotFound,
    /// An offer is recorded for this maker and id already.
    OfferAlreadyExists,
    /// The maker has used this id before, for an offer that has been taken
    /// or refunded.
    OfferResolved,
    /// No address can be derived for this maker and id.
    InvalidAuthority,
    /// The maker cannot pay for the storage of the offer and its holding
    /// account.
    RentUnpaid,
}

} // verus!
