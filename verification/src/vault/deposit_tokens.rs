//! A deposit: the depositor's tokens go to the vault's holding account, and
//! the depositor's record counts them.

use vstd::prelude::*;
use crate::address::Address;
use crate::token::{
    holding_of, transfer_failure, transfer_tokens, transferred, wallet_of, Authorization, Holder,
    Ledger, TokenKey,
};
use crate::vault::error::VaultError;
use crate::vault::state::UserState;

verus! {

/// Who deposits which asset kind.
#[derive(Clone, Copy, Debug)]
pub struct DepositTokens {
    /// The user depositing tokens, who signs.
    pub depositor: Address,
    /// The asset kind.
    pub token_mint: Address,
}

/// Why a deposit fails, if it does.
pub open spec fn deposit_failure(
    tokens: Map<TokenKey, u64>,
    user_state: UserState,
    context: DepositTokens,
    vault: Address,
    deposit_amount: u64,
) -> Option<VaultError> {
    if deposit_amount == 0 {
        Some(VaultError::ZeroAmount)
    } else if user_state.deposit_overflows(deposit_amount) {
        Some(VaultError::Overflow)
    } else if transfer_failure(
        tokens,
        wallet_of(context.depositor, context.token_mint),
        holding_of(vault, context.token_mint),
        deposit_amount,
        true,
    ) is Some {
        Some(VaultError::TokenTransferFailed)
    } else {
        None
    }
}

/// The record after the deposit: it is the depositor's for this asset kind,
/// and it counts the amount.
pub open spec fn deposit_record(
    user_state: UserState,
    context: DepositTokens,
    deposit_amount: u64,
    bump: u8,
) -> UserState {
    UserState {
        user: context.depositor,
        token_mint: context.token_mint,
        bump,
        ..user_state.deposited(deposit_amount)
    }
}

/// Counts `deposit_amount` in the record and moves it from the depositor's
/// account to the holding account of the vault's authority `vault`, on the
/// depositor's signature. Both take place, or neither.
pub fn handler(
    tokens: &mut Ledger,
    user_state: &mut UserState,
    context: &DepositTokens,
    vault: &Address,
    deposit_amount: u64,
    bump: u8,
) -> (r: Result<(), VaultError>)
    requires
        old(tokens).wf(),
    ensures
        final(tokens).wf(),
        match r {
            Ok(()) => {
                &&& deposit_failure(
                    old(tokens)@,
                    *old(user_state),
                    *context,
                    *vault,
                    deposit_amount,
                ) is None
                &&& final(tokens)@ == transferred(
                    old(tokens)@,
                    wallet_of(context.depositor, context.token_mint),
                    holding_of(*vault, context.token_mint),
                    deposit_amount,
                )
                &&& *final(user_state) == deposit_record(
                    *old(user_state),
                    *context,
                    deposit_amount,
                    bump,
                )
            },
            Err(e) => {
                &&& deposit_failure(
                    old(tokens)@,
                    *old(user_state),
                    *context,
                    *vault,
                    deposit_amount,
                ) == Some(e)
                &&& final(tokens)@ == old(tokens)@
                &&& *final(user_state) == *old(user_state)
            },
        },
{
    if deposit_amount == 0 {
        return Err(VaultError::ZeroAmount);
    }
    let mut record = *user_state;
    match record.record_deposit(deposit_amount) {
        Ok(()) => {},
        Err(e) => {
            return Err(e);
        },
    }
    record.user = context.depositor;
    record.token_mint = context.token_mint;
    record.bump = bump;
    match transfer_tokens(
        tokens,
        &Holder::Wallet(context.depositor),
        &Holder::Authority(*vault),
        deposit_amount,
        &context.token_mint,
        &Authorization::Signature(context.depositor),
    ) {
        Ok(()) => {},
        Err(_) => {
            return Err(VaultError::TokenTransferFailed);
        },
    }
    *user_state = record;
    Ok(())
}

} // verus!
