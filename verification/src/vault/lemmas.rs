//! What deposits and withdrawals do to records and balances.

use vstd::prelude::*;
use crate::address::Address;
use crate::token::{balance, holding_of, wallet_of, TokenKey};
use crate::vault::deposit_tokens::DepositTokens;
use crate::vault::error::VaultError;
use crate::vault::state::user_seeds;
use crate::vault::withdraw_tokens::WithdrawTokens;
use crate::vault::VaultView;

verus! {

impl VaultView {
    /// A deposit raises what the depositor's record has available, what it
    /// counts as deposited, and what the vault's holding account holds, each
    /// by exactly the amount, which leaves the depositor's account. A first
    /// deposit starts from a record that counts nothing. No other record and
    /// no other account changes.
    pub proof fn lemma_deposit_tokens(self, context: DepositTokens, deposit_amount: u64)
        requires
            self.valid(),
            self.deposit_tokens_failure(context, deposit_amount) is None,
        ensures
            ({
                let after = self.after_deposit_tokens(context, deposit_amount);
                let before = self.record_for(context.depositor, context.token_mint);
                let (address, bump) = user_seeds(context.depositor, context.token_mint).derived(
                    self.program_id,
                )->0;
                let wallet = wallet_of(context.depositor, context.token_mint);
                let holding = holding_of(self.vault->0.address, context.token_mint);
                &&& after.user_at(context.depositor, context.token_mint) is Some
                &&& (after.user_at(context.depositor, context.token_mint)->0).1
                    == after.users[address]
                &&& after.users[address].available_balance == before.available_balance
                    + deposit_amount
                &&& after.users[address].total_deposited == before.total_deposited
                    + deposit_amount
                &&& after.users[address].total_withdrawn == before.total_withdrawn
                &&& self.user_at(context.depositor, context.token_mint) is None
                    ==> before.available_balance == 0
                &&& self.user_at(context.depositor, context.token_mint) is Some ==> before == (
                self.user_at(context.depositor, context.token_mint)->0).1
                &&& balance(after.tokens, holding) == balance(self.tokens, holding)
                    + deposit_amount
                &&& balance(after.tokens, wallet) == balance(self.tokens, wallet) - deposit_amount
                &&& forall|key: TokenKey|
                    key != wallet && key != holding ==> after.tokens.dom().contains(key)
                        == self.tokens.dom().contains(key) && #[trigger] after.tokens[key]
                        == self.tokens[key]
                &&& forall|other: Address|
                    other != address ==> after.users.dom().contains(other)
                        == self.users.dom().contains(other) && #[trigger] after.users[other]
                        == self.users[other]
            }),
    {
        let (address, bump) = user_seeds(context.depositor, context.token_mint).derived(
            self.program_id,
        )->0;
        if self.users.dom().contains(address) {
            assert(self.covered(address));
        }
    }

    /// A deposit that would take what a record counts as deposited beyond
    /// what it can count fails with `Overflow`.
    pub proof fn lemma_deposit_overflow(self, context: DepositTokens, deposit_amount: u64)
        requires
            self.valid(),
            self.user_at(context.depositor, context.token_mint) is Some,
            (self.user_at(context.depositor, context.token_mint)->0).1.total_deposited
                + deposit_amount > u64::MAX,
        ensures
            self.deposit_tokens_failure(context, deposit_amount) == Some(VaultError::Overflow),
    {
        let (address, record) = self.user_at(context.depositor, context.token_mint)->0;
        assert(self.covered(address));
    }

    /// A withdrawal lowers what the depositor's record has available and
    /// what the vault's holding account holds, and raises what the record
    /// counts as withdrawn, each by exactly the amount, which reaches the
    /// depositor's account. No other record and no other account changes.
    pub proof fn lemma_withdraw_tokens(self, context: WithdrawTokens, withdraw_amount: u64)
        requires
            self.valid(),
            self.withdraw_tokens_failure(context, withdraw_amount) is None,
        ensures
            ({
                let after = self.after_withdraw_tokens(context, withdraw_amount);
                let (address, before) = self.user_at(context.depositor, context.token_mint)->0;
                let wallet = wallet_of(context.depositor, context.token_mint);
                let holding = holding_of(self.vault->0.address, context.token_mint);
                &&& after.user_at(context.depositor, context.token_mint) == Some(
                    (address, after.users[address]),
                )
                &&& after.users[address].available_balance == before.available_balance
                    - withdraw_amount
                &&& after.users[address].total_withdrawn == before.total_withdrawn
                    + withdraw_amount
                &&& after.users[address].total_deposited == before.total_deposited
                &&& balance(after.tokens, holding) == balance(self.tokens, holding)
                    - withdraw_amount
                &&& balance(after.tokens, wallet) == balance(self.tokens, wallet) + withdraw_amount
                &&& forall|key: TokenKey|
                    key != wallet && key != holding ==> after.tokens.dom().contains(key)
                        == self.tokens.dom().contains(key) && #[trigger] after.tokens[key]
                        == self.tokens[key]
                &&& forall|other: Address|
                    other != address ==> after.users.dom().contains(other)
                        == self.users.dom().contains(other) && #[trigger] after.users[other]
                        == self.users[other]
            }),
    {
        let (address, before) = self.user_at(context.depositor, context.token_mint)->0;
        assert(self.covered(address));
    }

    /// A withdrawal of more than a record has available fails with
    /// `InsufficientFunds`.
    pub proof fn lemma_withdraw_beyond_available(
        self,
        context: WithdrawTokens,
        withdraw_amount: u64,
    )
        requires
            self.valid(),
            self.user_at(context.depositor, context.token_mint) is Some,
            withdraw_amount > (self.user_at(
                context.depositor,
                context.token_mint,
            )->0).1.available_balance,
        ensures
            self.withdraw_tokens_failure(context, withdraw_amount) == Some(
                VaultError::InsufficientFunds,
            ),
    {
        let (address, record) = self.user_at(context.depositor, context.token_mint)->0;
        assert(self.covered(address));
    }

    /// No record has more available than the vault's holding account for
    /// its asset kind holds, and what a record has available is what it
    /// counts as deposited less what it counts as withdrawn.
    pub proof fn lemma_record_is_covered(self, depositor: Address, token_mint: Address)
        requires
            self.valid(),
            self.user_at(depositor, token_mint) is Some,
        ensures
            ({
                let (address, record) = self.user_at(depositor, token_mint)->0;
                &&& self.vault is Some
                &&& record.available_balance <= balance(
                    self.tokens,
                    holding_of(self.vault->0.address, token_mint),
                )
                &&& record.available_balance == record.total_deposited - record.total_withdrawn
            }),
    {
        let (address, record) = self.user_at(depositor, token_mint)->0;
        assert(self.covered(address));
    }
}

} // verus!
