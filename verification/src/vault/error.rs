//! The failures of the vault.

use vstd::prelude::*;

verus! {

/// Why an operation of the vault did not take place. Whatever the failure,
/// the operation has changed nothing.
#[derive(Clone, Copy, Debug, PartialEq, Eq, Structural)]
pub enum VaultError {
    AccountNotMutable,
    AlreadyInitialized,
    InvalidVaultAuthority,
    TokenTransferFailed,
    InvalidUserAccount,
    InvalidMint,
    InvalidOwner,
    MintMismatch,
    ZeroAmount,
    InsufficientFunds,
    Overflow,
    NotRentExempt,
    InvalidInstruction,
    NotSigner,
    GenericError,
}

impl VaultError {
    /// The message that goes with the failure, as text.
    pub open spec fn text(self) -> Seq<char> {
        match self {
            VaultError::AccountNotMutable => "Account not mutable"@,
            VaultError::AlreadyInitialized => "Vault is already initialized"@,
            VaultError::InvalidVaultAuthority => "Invalid Vault account PDA"@,
            VaultError::TokenTransferFailed => "Token Transfer Failed"@,
            VaultError::InvalidUserAccount => "Invalid User account PDA"@,
            VaultError::InvalidMint => "Invalid token mint"@,
            VaultError::InvalidOwner => "Invalid token account owner"@,
            VaultError::MintMismatch => "Source and destination mint mismatch"@,
            VaultError::ZeroAmount => "Zero Deposit Amount"@,
            VaultError::InsufficientFunds => "Insufficient user balance"@,
            VaultError::Overflow => "Overflow occurred"@,
            VaultError::NotRentExempt => "Account not rent exempt"@,
            VaultError::InvalidInstruction => "Invalid instruction"@,
            VaultError::NotSigner => "Missing required signer"@,
            VaultError::GenericError => "General failure"@,
        }
    }

    /// The message that goes with the failure.
    pub fn message(&self) -> (r: &'static str)
        ensures
            r@ == self.text(),
    {
        match self {
            VaultError::AccountNotMutable => "Account not mutable",
            VaultError::AlreadyInitialized => "Vault is already initialized",
            VaultError::InvalidVaultAuthority => "Invalid Vault account PDA",
            VaultError::TokenTransferFailed => "Token Transfer Failed",
            VaultError::InvalidUserAccount => "Invalid User account PDA",
            VaultError::InvalidMint => "Invalid token mint",
            VaultError::InvalidOwner => "Invalid token account owner",
            VaultError::MintMismatch => "Source and destination mint mismatch",
            VaultError::ZeroAmount => "Zero Deposit Amount",
            VaultError::InsufficientFunds => "Insufficient user balance",
            VaultError::Overflow => "Overflow occurred",
            VaultError::NotRentExempt => "Account not rent exempt",
            VaultError::InvalidInstruction => "Invalid instruction",
            VaultError::NotSigner => "Missing required signer",
            VaultError::GenericError => "General failure",
        }
    }
}

} // verus!
