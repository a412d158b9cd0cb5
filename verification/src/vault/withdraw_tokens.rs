//! A withdrawal: tokens go from the vault's holding account to the
//! depositor, up to what the depositor's record has available.

use vstd::prelude::*;
use crate::address::Address;
use crate::table::Key;
use crate::token::{
    holding_of, transfer_failure, transfer_tokens, transferred, wallet_of, Authorization, Holder,
    Ledger, TokenKey,
};
use crate::vault::error::VaultError;
use crate::vault::state::{UserState, VaultState};

verus! {

/// Who withdraws which asset kind.
#[derive(Clone, Copy, Debug)]
pub struct WithdrawTokens {
    /// The user withdrawing tokens, who signs.
    pub depositor: Address,
    /// The asset kind.
    pub token_mint: Address,
}

/// Why a withdrawal fails, if it does.
pub open spec fn withdraw_failure(
    tokens: Map<TokenKey, u64>,
    user_state: UserState,
    context: WithdrawTokens,
    vault: Address,
    authorized: bool,
    withdraw_amount: u64,
) -> Option<VaultError> {
    if withdraw_amount == 0 {
        Some(VaultError::ZeroAmount)
    } else if user_state.available_balance < withdraw_amount {
        Some(VaultError::InsufficientFunds)
    } else if context.token_mint != user_state.token_mint {
        Some(VaultError::InvalidMint)
    } else if user_state.withdrawal_overflows(withdraw_amount) {
        Some(VaultError::Overflow)
    } else if transfer_failure(
        tokens,
        holding_of(vault, context.token_mint),
        wallet_of(context.depositor, context.token_mint),
        withdraw_amount,
        authorized,
    ) is Some {
        Some(VaultError::TokenTransferFailed)
    } else {
        None
    }
}

/// Counts `withdraw_amount` in the record and moves it from the holding
/// account of the vault's authority `vault` to the depositor's account, on
/// the proof that the vault's seeds and bump seed give. Both take place, or
/// neither.
pub fn handler(
    tokens: &mut Ledger,
    user_state: &mut UserState,
    vault_state: &VaultState,
    context: &WithdrawTokens,
    vault: &Address,
    program_id: &Address,
    withdraw_amount: u64,
) -> (r: Result<(), VaultError>)
    requires
        old(tokens).wf(),
    ensures
        final(tokens).wf(),
        match r {
            Ok(()) => {
                &&& withdraw_failure(
                    old(tokens)@,
                    *old(user_state),
                    *context,
                    *vault,
                    vault_state.authorizes(*vault, *program_id),
                    withdraw_amount,
                ) is None
                &&& final(tokens)@ == transferred(
                    old(tokens)@,
                    holding_of(*vault, context.token_mint),
                    wallet_of(context.depositor, context.token_mint),
                    withdraw_amount,
                )
                &&& *final(user_state) == old(user_state).withdrawn(withdraw_amount)
            },
            Err(e) => {
                &&& withdraw_failure(
                    old(tokens)@,
                    *old(user_state),
                    *context,
                    *vault,
                    vault_state.authorizes(*vault, *program_id),
                    withdraw_amount,
                ) == Some(e)
                &&& final(tokens)@ == old(tokens)@
                &&& *final(user_state) == *old(user_state)
            },
        },
{
    if withdraw_amount == 0 {
        return Err(VaultError::ZeroAmount);
    }
    if user_state.available_balance < withdraw_amount {
        return Err(VaultError::InsufficientFunds);
    }
    if !context.token_mint.same(&user_state.token_mint) {
        return Err(VaultError::InvalidMint);
    }
    let mut record = *user_state;
    match record.record_withdrawal(withdraw_amount) {
        Ok(()) => {},
        Err(e) => {
            return Err(e);
        },
    }
    let proof = match vault_state.authority().authorize(program_id) {
        Ok(proof) => proof,
        Err(_) => {
            return Err(VaultError::TokenTransferFailed);
        },
    };
    match transfer_tokens(
        tokens,
        &Holder::Authority(*vault),
        &Holder::Wallet(context.depositor),
        withdraw_amount,
        &context.token_mint,
        &Authorization::Proof(proof),
    ) {
        Ok(()) => {},
        Err(_) => {
            return Err(VaultError::TokenTransferFailed);
        },
    }
    *user_state = record;
    Ok(())
}

} // verus!
