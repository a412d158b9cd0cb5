//! The vault ledger: one holding account for each asset kind under the
//! vault's derived authority, and one balance record for each depositor and
//! asset kind. A deposit raises the holding account and the record alike; a
//! withdrawal lowers both, up to what the record has available. Each
//! operation takes place wholly or not at all.

pub mod deposit_tokens;
pub mod error;
pub mod initialize_user;
pub mod initialize_vault;
pub mod lemmas;
pub mod register_token_mint;
pub mod state;
pub mod withdraw_tokens;

use vstd::prelude::*;
use crate::address::Address;
use crate::table::{Key, Table};
use crate::token::{
    balance, holding_of, opened, transfer_failure, transferred, wallet_of, Holder, Ledger,
    TokenError, TokenKey,
};
use crate::vault::deposit_tokens::DepositTokens;
use crate::vault::error::VaultError;
use crate::vault::initialize_user::InitializeUser;
use crate::vault::initialize_vault::InitializeVault;
use crate::vault::register_token_mint::RegisterTokenMint;
use crate::vault::state::{
    lemma_owed_push, lemma_owed_update, owed, user_seeds, vault_seeds, UserState, VaultState,
};
use crate::vault::withdraw_tokens::WithdrawTokens;

verus! {

/// The vault's own record with the derived address that it is kept under.
#[derive(Clone, Copy, Debug)]
pub struct VaultAccount {
    pub address: Address,
    pub state: VaultState,
}

/// What a vault holds: its own record once it is set up, the balance
/// records, each under its derived address, and the token accounts with
/// their balances.
pub struct VaultView {
    pub program_id: Address,
    pub vault: Option<VaultAccount>,
    pub users: Map<Address, UserState>,
    pub tokens: Map<TokenKey, u64>,
}

impl VaultView {
    /// The record of `depositor` for `token_mint`, with the address it is
    /// kept under.
    pub open spec fn user_at(self, depositor: Address, token_mint: Address) -> Option<
        (Address, UserState),
    > {
        match user_seeds(depositor, token_mint).derived(self.program_id) {
            Some((address, bump)) => if self.users.dom().contains(address)
                && self.users[address].user == depositor && self.users[address].token_mint
                == token_mint {
                Some((address, self.users[address]))
            } else {
                None
            },
            None => None,
        }
    }

    /// The record under `address` is kept under the address derived for its
    /// depositor and asset kind, what it has available is what was deposited
    /// less what was withdrawn, and the vault's holding account for its
    /// asset kind holds at least that much.
    pub open spec fn covered(self, address: Address) -> bool {
        let record = self.users[address];
        &&& self.vault is Some
        &&& user_seeds(record.user, record.token_mint).derived(self.program_id) == Some(
            (address, record.bump),
        )
        &&& record.wf()
        &&& record.available_balance <= balance(
            self.tokens,
            holding_of(self.vault->0.address, record.token_mint),
        )
    }

    /// The token account `key`, where a derived authority holds it, is a
    /// holding account of the vault.
    pub open spec fn owned(self, key: TokenKey) -> bool {
        match key.holder {
            Holder::Authority(address) => self.vault is Some && self.vault->0.address == address,
            Holder::Wallet(_) => true,
        }
    }

    /// The vault's record is kept under the address derived for its owner,
    /// and its seeds and bump seed stand for that address.
    pub open spec fn anchored(self) -> bool {
        match self.vault {
            Some(account) => {
                &&& vault_seeds(account.state.project_owner).derived(self.program_id) == Some(
                    (account.address, account.state.bump),
                )
                &&& account.state.authorizes(account.address, self.program_id)
            },
            None => true,
        }
    }

    /// The vault's record is anchored, every balance record is covered, and
    /// every holding account is the vault's.
    pub open spec fn valid(self) -> bool {
        &&& self.anchored()
        &&& forall|address: Address| #[trigger]
            self.users.dom().contains(address) ==> self.covered(address)
        &&& forall|key: TokenKey| #[trigger] self.tokens.dom().contains(key) ==> self.owned(key)
    }

    /// Why `initialize_vault` fails, if it does.
    pub open spec fn initialize_vault_failure(self, context: InitializeVault) -> Option<
        VaultError,
    > {
        if self.vault is Some {
            Some(VaultError::AlreadyInitialized)
        } else if vault_seeds(context.project_owner).derived(self.program_id) is None {
            Some(VaultError::InvalidVaultAuthority)
        } else {
            None
        }
    }

    /// The vault after `initialize_vault` has succeeded.
    pub open spec fn after_initialize_vault(self, context: InitializeVault) -> VaultView {
        let (address, bump) = vault_seeds(context.project_owner).derived(self.program_id)->0;
        VaultView {
            vault: Some(
                VaultAccount {
                    address,
                    state: VaultState { project_owner: context.project_owner, bump },
                },
            ),
            ..self
        }
    }

    /// Why `register_token_mint` fails, if it does.
    pub open spec fn register_token_mint_failure(self, context: RegisterTokenMint) -> Option<
        VaultError,
    > {
        match self.vault {
            None => Some(VaultError::InvalidVaultAuthority),
            Some(account) => if account.state.project_owner != context.project_owner {
                Some(VaultError::InvalidOwner)
            } else {
                None
            },
        }
    }

    /// The vault after `register_token_mint` has succeeded.
    pub open spec fn after_register_token_mint(self, context: RegisterTokenMint) -> VaultView {
        VaultView {
            tokens: opened(self.tokens, holding_of(self.vault->0.address, context.token_mint)),
            ..self
        }
    }

    /// Why `initialize_user` fails, if it does.
    pub open spec fn initialize_user_failure(self, context: InitializeUser) -> Option<VaultError> {
        if self.vault is None {
            Some(VaultError::InvalidVaultAuthority)
        } else {
            match user_seeds(context.user, context.token_mint).derived(self.program_id) {
                None => Some(VaultError::InvalidUserAccount),
                Some((address, bump)) => if self.users.dom().contains(address) {
                    Some(VaultError::AlreadyInitialized)
                } else {
                    None
                },
            }
        }
    }

    /// The vault after `initialize_user` has succeeded.
    pub open spec fn after_initialize_user(self, context: InitializeUser) -> VaultView {
        let (address, bump) = user_seeds(context.user, context.token_mint).derived(
            self.program_id,
        )->0;
        VaultView {
            users: self.users.insert(
                address,
                UserState {
                    user: context.user,
                    token_mint: context.token_mint,
                    total_deposited: 0,
                    total_withdrawn: 0,
                    available_balance: 0,
                    bump,
                },
            ),
            ..self
        }
    }

    /// The record that a deposit of `depositor` for `token_mint` starts
    /// from: the one that is kept, or one that counts nothing yet.
    pub open spec fn record_for(self, depositor: Address, token_mint: Address) -> UserState {
        let (address, bump) = user_seeds(depositor, token_mint).derived(self.program_id)->0;
        if self.users.dom().contains(address) {
            self.users[address]
        } else {
            UserState {
                user: depositor,
                token_mint,
                total_deposited: 0,
                total_withdrawn: 0,
                available_balance: 0,
                bump,
            }
        }
    }

    /// Why `deposit_tokens` fails, if it does.
    pub open spec fn deposit_tokens_failure(
        self,
        context: DepositTokens,
        deposit_amount: u64,
    ) -> Option<VaultError> {
        match self.vault {
            None => Some(VaultError::InvalidVaultAuthority),
            Some(account) => match user_seeds(context.depositor, context.token_mint).derived(
                self.program_id,
            ) {
                None => Some(VaultError::InvalidUserAccount),
                Some((address, bump)) => if self.users.dom().contains(address) && self.user_at(
                    context.depositor,
                    context.token_mint,
                ) is None {
                    Some(VaultError::InvalidUserAccount)
                } else if deposit_amount == 0 {
                    Some(VaultError::ZeroAmount)
                } else if self.record_for(context.depositor, context.token_mint).total_deposited
                    + deposit_amount > u64::MAX {
                    Some(VaultError::Overflow)
                } else if transfer_failure(
                    self.tokens,
                    wallet_of(context.depositor, context.token_mint),
                    holding_of(account.address, context.token_mint),
                    deposit_amount,
                    true,
                ) is Some {
                    Some(VaultError::TokenTransferFailed)
                } else {
                    None
                },
            },
        }
    }

    /// The vault after `deposit_tokens` has succeeded.
    pub open spec fn after_deposit_tokens(
        self,
        context: DepositTokens,
        deposit_amount: u64,
    ) -> VaultView {
        let (address, bump) = user_seeds(context.depositor, context.token_mint).derived(
            self.program_id,
        )->0;
        VaultView {
            users: self.users.insert(
                address,
                self.record_for(context.depositor, context.token_mint).deposited(deposit_amount),
            ),
            tokens: transferred(
                self.tokens,
                wallet_of(context.depositor, context.token_mint),
                holding_of(self.vault->0.address, context.token_mint),
                deposit_amount,
            ),
            ..self
        }
    }

    /// Why `withdraw_tokens` fails, if it does.
    pub open spec fn withdraw_tokens_failure(
        self,
        context: WithdrawTokens,
        withdraw_amount: u64,
    ) -> Option<VaultError> {
        match self.vault {
            None => Some(VaultError::InvalidVaultAuthority),
            Some(account) => match self.user_at(context.depositor, context.token_mint) {
                None => Some(VaultError::InvalidUserAccount),
                Some((address, record)) => if withdraw_amount == 0 {
                    Some(VaultError::ZeroAmount)
                } else if record.available_balance < withdraw_amount {
                    Some(VaultError::InsufficientFunds)
                } else if !self.tokens.dom().contains(
                    wallet_of(context.depositor, context.token_mint),
                ) || self.tokens[wallet_of(context.depositor, context.token_mint)]
                    + withdraw_amount > u64::MAX {
                    Some(VaultError::TokenTransferFailed)
                } else {
                    None
                },
            },
        }
    }

    /// The vault after `withdraw_tokens` has succeeded.
    pub open spec fn after_withdraw_tokens(
        self,
        context: WithdrawTokens,
        withdraw_amount: u64,
    ) -> VaultView {
        let (address, record) = self.user_at(context.depositor, context.token_mint)->0;
        VaultView {
            users: self.users.insert(address, record.withdrawn(withdraw_amount)),
            tokens: transferred(
                self.tokens,
                holding_of(self.vault->0.address, context.token_mint),
                wallet_of(context.depositor, context.token_mint),
                withdraw_amount,
            ),
            ..self
        }
    }
}

/// A vault: its record, the balance records and the token accounts.
#[derive(Debug)]
pub struct Vault {
    program_id: Address,
    vault: Option<VaultAccount>,
    users: Table<Address, UserState>,
    tokens: Ledger,
}

impl View for Vault {
    type V = VaultView;

    closed spec fn view(&self) -> VaultView {
        VaultView {
            program_id: self.program_id,
            vault: self.vault,
            users: self.users@,
            tokens: self.tokens@,
        }
    }
}

impl Vault {
    /// Of each asset kind, the vault's holding account holds exactly what
    /// the balance records together have available.
    pub closed spec fn solvent(&self) -> bool {
        match self.vault {
            Some(account) => forall|mint: Address|
                balance(self.tokens@, holding_of(account.address, mint)) == #[trigger] owed(
                    self.users.values(),
                    mint,
                ),
            None => self.users.values().len() == 0,
        }
    }

    /// The tables are in order, the vault is valid and it is solvent.
    pub closed spec fn wf(&self) -> bool {
        &&& self.users.wf()
        &&& self.tokens.wf()
        &&& self@.valid()
        &&& self.solvent()
    }

    /// What is valid of a vault is valid of its view.
    pub proof fn lemma_wf_valid(&self)
        requires
            self.wf(),
        ensures
            self@.valid(),
    {
    }

    /// A vault of the program `program_id` that is not set up yet, without
    /// records or accounts.
    pub fn new(program_id: Address) -> (r: Vault)
        ensures
            r.wf(),
            r@ == (VaultView {
                program_id,
                vault: None,
                users: Map::<Address, UserState>::empty(),
                tokens: Map::<TokenKey, u64>::empty(),
            }),
    {
        Vault { program_id, vault: None, users: Table::new(), tokens: Ledger::new() }
    }

    /// The program for which the addresses are derived.
    pub fn program_id(&self) -> (r: Address)
        ensures
            r == self@.program_id,
    {
        self.program_id
    }

    /// The vault's own record with its address, once the vault is set up.
    pub fn account(&self) -> (r: Option<VaultAccount>)
        ensures
            r == self@.vault,
    {
        self.vault
    }

    /// The token accounts, to read balances from.
    pub fn tokens(&self) -> (r: &Ledger)
        requires
            self.wf(),
        ensures
            r.wf(),
            r@ == self@.tokens,
    {
        &self.tokens
    }

    /// The record of `depositor` for `token_mint`, if there is one.
    pub fn user_state(&self, depositor: &Address, token_mint: &Address) -> (r: Option<UserState>)
        requires
            self.wf(),
        ensures
            r == match self@.user_at(*depositor, *token_mint) {
                Some((_, record)) => Some(record),
                None => None,
            },
    {
        match UserState::seeds(depositor, token_mint).derive(&self.program_id) {
            None => None,
            Some((address, _)) => match self.users.get(&address) {
                None => None,
                Some(record) => if record.user.same(depositor) && record.token_mint.same(
                    token_mint,
                ) {
                    Some(record)
                } else {
                    None
                },
            },
        }
    }

    /// Credits the account of the user `owner` for `mint` with `amount` new
    /// tokens, opening it if needed. Nothing changes where the account cannot
    /// hold that much more.
    pub fn fund(&mut self, owner: &Address, mint: &Address, amount: u64) -> (r: Result<
        (),
        TokenError,
    >)
        requires
            old(self).wf(),
        ensures
            final(self).wf(),
            final(self)@.program_id == old(self)@.program_id,
            final(self)@.vault == old(self)@.vault,
            final(self)@.users == old(self)@.users,
            match r {
                Ok(()) => {
                    &&& balance(old(self)@.tokens, wallet_of(*owner, *mint)) + amount <= u64::MAX
                    &&& final(self)@.tokens == old(self)@.tokens.insert(
                        wallet_of(*owner, *mint),
                        (balance(old(self)@.tokens, wallet_of(*owner, *mint)) + amount) as u64,
                    )
                },
                Err(e) => {
                    &&& balance(old(self)@.tokens, wallet_of(*owner, *mint)) + amount > u64::MAX
                    &&& final(self)@.tokens == old(self)@.tokens
                    &&& e == TokenError::Overflow
                },
            },
    {
        let r = self.tokens.mint_to(TokenKey::wallet(*owner, *mint), amount);
        proof {
            let key = wallet_of(*owner, *mint);
            assert forall|address: Address| #[trigger]
                self@.users.dom().contains(address) implies self@.covered(address) by {
                assert(old(self)@.covered(address));
            }
            assert forall|k: TokenKey| #[trigger]
                self@.tokens.dom().contains(k) implies self@.owned(k) by {
                if k != key {
                    assert(old(self)@.tokens.dom().contains(k));
                    assert(old(self)@.owned(k));
                }
            }
            if let Some(account) = self.vault {
                assert forall|m: Address|
                    balance(self.tokens@, holding_of(account.address, m)) == #[trigger] owed(
                        self.users.values(),
                        m,
                    ) by {
                    assert(balance(old(self).tokens@, holding_of(account.address, m)) == owed(
                        old(self).users.values(),
                        m,
                    ));
                }
            }
        }
        r
    }
}

/// Sets the vault up for its owner: its record is kept under the address
/// derived for the owner, which becomes the authority over the holding
/// accounts.
pub fn initialize_vault(vault: &mut Vault, context: &InitializeVault) -> (r: Result<(), VaultError>)
    requires
        old(vault).wf(),
    ensures
        final(vault).wf(),
        match r {
            Ok(()) => {
                &&& old(vault)@.initialize_vault_failure(*context) is None
                &&& final(vault)@ == old(vault)@.after_initialize_vault(*context)
            },
            Err(e) => {
                &&& old(vault)@.initialize_vault_failure(*context) == Some(e)
                &&& final(vault)@ == old(vault)@
            },
        },
{
    if vault.vault.is_some() {
        return Err(VaultError::AlreadyInitialized);
    }
    let (address, bump) = match VaultState::seeds(&context.project_owner).derive(
        &vault.program_id,
    ) {
        Some(found) => found,
        None => {
            return Err(VaultError::InvalidVaultAuthority);
        },
    };
    let state = initialize_vault::handler(context, bump);
    proof {
        assert forall|key: TokenKey| #[trigger] vault@.tokens.dom().contains(key) implies !(
        key.holder is Authority) by {
            assert(vault@.owned(key));
        }
        assert forall|address: Address| !#[trigger] vault@.users.dom().contains(address) by {
            if vault@.users.dom().contains(address) {
                assert(vault@.covered(address));
            }
        }
    }
    vault.vault = Some(VaultAccount { address, state });
    proof {
        assert forall|mint: Address|
            balance(vault.tokens@, holding_of(address, mint)) == #[trigger] owed(
                vault.users.values(),
                mint,
            ) by {
            if vault.tokens@.dom().contains(holding_of(address, mint)) {
                assert(old(vault)@.owned(holding_of(address, mint)));
            }
        }
    }
    Ok(())
}

/// Registers an asset kind on the owner's signature: the vault gets a
/// holding account for it, unless it has one.
pub fn register_token_mint(vault: &mut Vault, context: &RegisterTokenMint) -> (r: Result<
    (),
    VaultError,
>)
    requires
        old(vault).wf(),
    ensures
        final(vault).wf(),
        match r {
            Ok(()) => {
                &&& old(vault)@.register_token_mint_failure(*context) is None
                &&& final(vault)@ == old(vault)@.after_register_token_mint(*context)
            },
            Err(e) => {
                &&& old(vault)@.register_token_mint_failure(*context) == Some(e)
                &&& final(vault)@ == old(vault)@
            },
        },
{
    let account = match vault.vault {
        Some(account) => account,
        None => {
            return Err(VaultError::InvalidVaultAuthority);
        },
    };
    if !account.state.project_owner.same(&context.project_owner) {
        return Err(VaultError::InvalidOwner);
    }
    register_token_mint::handler(&mut vault.tokens, context, &account.address);
    proof {
        let key = holding_of(account.address, context.token_mint);
        assert forall|address: Address| #[trigger]
            vault@.users.dom().contains(address) implies vault@.covered(address) by {
            assert(old(vault)@.covered(address));
        }
        assert forall|k: TokenKey| #[trigger]
            vault@.tokens.dom().contains(k) implies vault@.owned(k) by {
            if k != key {
                assert(old(vault)@.tokens.dom().contains(k));
                assert(old(vault)@.owned(k));
            }
        }
        assert forall|m: Address|
            balance(vault.tokens@, holding_of(account.address, m)) == #[trigger] owed(
                vault.users.values(),
                m,
            ) by {
            assert(balance(old(vault).tokens@, holding_of(account.address, m)) == owed(
                old(vault).users.values(),
                m,
            ));
        }
    }
    Ok(())
}

/// Sets up the record of a user for an asset kind, which counts nothing
/// yet, under the address derived for the two.
pub fn initialize_user(vault: &mut Vault, context: &InitializeUser) -> (r: Result<(), VaultError>)
    requires
        old(vault).wf(),
    ensures
        final(vault).wf(),
        match r {
            Ok(()) => {
                &&& old(vault)@.initialize_user_failure(*context) is None
                &&& final(vault)@ == old(vault)@.after_initialize_user(*context)
            },
            Err(e) => {
                &&& old(vault)@.initialize_user_failure(*context) == Some(e)
                &&& final(vault)@ == old(vault)@
            },
        },
{
    let account = match vault.vault {
        Some(account) => account,
        None => {
            return Err(VaultError::InvalidVaultAuthority);
        },
    };
    let (address, bump) = match UserState::seeds(&context.user, &context.token_mint).derive(
        &vault.program_id,
    ) {
        Some(found) => found,
        None => {
            return Err(VaultError::InvalidUserAccount);
        },
    };
    if vault.users.contains_key(&address) {
        return Err(VaultError::AlreadyInitialized);
    }
    let record = initialize_user::handler(context, bump);
    vault.users.insert(address, record);
    proof {
        assert forall|m: Address|
            balance(vault.tokens@, holding_of(account.address, m)) == #[trigger] owed(
                vault.users.values(),
                m,
            ) by {
            assert(balance(old(vault).tokens@, holding_of(account.address, m)) == owed(
                old(vault).users.values(),
                m,
            ));
            lemma_owed_push(old(vault).users.values(), record, m);
        }
        assert forall|other: Address| #[trigger]
            vault@.users.dom().contains(other) implies vault@.covered(other) by {
            if other != address {
                assert(old(vault)@.covered(other));
            }
        }
        assert forall|k: TokenKey| #[trigger]
            vault@.tokens.dom().contains(k) implies vault@.owned(k) by {
            assert(old(vault)@.owned(k));
        }
    }
    Ok(())
}

/// Deposits `deposit_amount` of the asset kind for the depositor: the
/// tokens leave the depositor's account for the vault's holding account, and
/// the depositor's record, which is made if this is the first deposit,
/// counts them.
pub fn deposit_tokens(vault: &mut Vault, context: &DepositTokens, deposit_amount: u64) -> (r:
    Result<(), VaultError>)
    requires
        old(vault).wf(),
    ensures
        final(vault).wf(),
        match r {
            Ok(()) => {
                &&& old(vault)@.deposit_tokens_failure(*context, deposit_amount) is None
                &&& final(vault)@ == old(vault)@.after_deposit_tokens(*context, deposit_amount)
            },
            Err(e) => {
                &&& old(vault)@.deposit_tokens_failure(*context, deposit_amount) == Some(e)
                &&& final(vault)@ == old(vault)@
            },
        },
{
    let account = match vault.vault {
        Some(account) => account,
        None => {
            return Err(VaultError::InvalidVaultAuthority);
        },
    };
    let (address, bump) = match UserState::seeds(&context.depositor, &context.token_mint).derive(
        &vault.program_id,
    ) {
        Some(found) => found,
        None => {
            return Err(VaultError::InvalidUserAccount);
        },
    };
    let mut record = match vault.users.get(&address) {
        Some(record) => {
            if !(record.user.same(&context.depositor) && record.token_mint.same(
                &context.token_mint,
            )) {
                return Err(VaultError::InvalidUserAccount);
            }
            record
        },
        None => UserState::new(context.depositor, context.token_mint, bump),
    };
    let ghost before = record;
    proof {
        if vault@.users.dom().contains(address) {
            assert(vault@.covered(address));
            vault.users.lemma_index_of(address);
            lemma_owed_update(
                vault.users.values(),
                vault.users.index_of(address),
                record,
                context.token_mint,
            );
        }
        assert(balance(vault.tokens@, holding_of(account.address, context.token_mint)) == owed(
            vault.users.values(),
            context.token_mint,
        ));
    }
    match deposit_tokens::handler(
        &mut vault.tokens,
        &mut record,
        context,
        &account.address,
        deposit_amount,
        bump,
    ) {
        Ok(()) => {},
        Err(e) => {
            return Err(e);
        },
    }
    vault.users.insert(address, record);
    proof {
        let wallet = wallet_of(context.depositor, context.token_mint);
        let holding = holding_of(account.address, context.token_mint);
        assert forall|m: Address|
            balance(vault.tokens@, holding_of(account.address, m)) == #[trigger] owed(
                vault.users.values(),
                m,
            ) by {
            assert(balance(old(vault).tokens@, holding_of(account.address, m)) == owed(
                old(vault).users.values(),
                m,
            ));
            if old(vault)@.users.dom().contains(address) {
                old(vault).users.lemma_index_of(address);
                lemma_owed_update(
                    old(vault).users.values(),
                    old(vault).users.index_of(address),
                    record,
                    m,
                );
            } else {
                lemma_owed_push(old(vault).users.values(), record, m);
            }
        }
        assert forall|other: Address| #[trigger]
            vault@.users.dom().contains(other) implies vault@.covered(other) by {
            if other != address {
                assert(old(vault)@.covered(other));
            }
            vault.users.lemma_index_of(other);
            lemma_owed_update(
                vault.users.values(),
                vault.users.index_of(other),
                vault@.users[other],
                vault@.users[other].token_mint,
            );
        }
        assert forall|k: TokenKey| #[trigger]
            vault@.tokens.dom().contains(k) implies vault@.owned(k) by {
            if k != wallet && k != holding {
                assert(old(vault)@.tokens.dom().contains(k));
                assert(old(vault)@.owned(k));
            }
        }
    }
    Ok(())
}

/// Withdraws `withdraw_amount` of the asset kind for the depositor, out of
/// what the depositor's record has available: the tokens leave the vault's
/// holding account for the depositor's account, and the record counts them.
pub fn withdraw_tokens(vault: &mut Vault, context: &WithdrawTokens, withdraw_amount: u64) -> (r:
    Result<(), VaultError>)
    requires
        old(vault).wf(),
    ensures
        final(vault).wf(),
        match r {
            Ok(()) => {
                &&& old(vault)@.withdraw_tokens_failure(*context, withdraw_amount) is None
                &&& final(vault)@ == old(vault)@.after_withdraw_tokens(*context, withdraw_amount)
            },
            Err(e) => {
                &&& old(vault)@.withdraw_tokens_failure(*context, withdraw_amount) == Some(e)
                &&& final(vault)@ == old(vault)@
            },
        },
{
    let account = match vault.vault {
        Some(account) => account,
        None => {
            return Err(VaultError::InvalidVaultAuthority);
        },
    };
    let (address, _) = match UserState::seeds(&context.depositor, &context.token_mint).derive(
        &vault.program_id,
    ) {
        Some(found) => found,
        None => {
            return Err(VaultError::InvalidUserAccount);
        },
    };
    let mut record = match vault.users.get(&address) {
        Some(record) => {
            if !(record.user.same(&context.depositor) && record.token_mint.same(
                &context.token_mint,
            )) {
                return Err(VaultError::InvalidUserAccount);
            }
            record
        },
        None => {
            return Err(VaultError::InvalidUserAccount);
        },
    };
    proof {
        assert(vault@.covered(address));
    }
    match withdraw_tokens::handler(
        &mut vault.tokens,
        &mut record,
        &account.state,
        context,
        &account.address,
        &vault.program_id,
        withdraw_amount,
    ) {
        Ok(()) => {},
        Err(e) => {
            return Err(e);
        },
    }
    vault.users.insert(address, record);
    proof {
        let wallet = wallet_of(context.depositor, context.token_mint);
        let holding = holding_of(account.address, context.token_mint);
        assert forall|m: Address|
            balance(vault.tokens@, holding_of(account.address, m)) == #[trigger] owed(
                vault.users.values(),
                m,
            ) by {
            assert(balance(old(vault).tokens@, holding_of(account.address, m)) == owed(
                old(vault).users.values(),
                m,
            ));
            old(vault).users.lemma_index_of(address);
            lemma_owed_update(
                old(vault).users.values(),
                old(vault).users.index_of(address),
                record,
                m,
            );
        }
        assert forall|other: Address| #[trigger]
            vault@.users.dom().contains(other) implies vault@.covered(other) by {
            if other != address {
                assert(old(vault)@.covered(other));
            }
            vault.users.lemma_index_of(other);
            lemma_owed_update(
                vault.users.values(),
                vault.users.index_of(other),
                vault@.users[other],
                vault@.users[other].token_mint,
            );
        }
        assert forall|k: TokenKey| #[trigger]
            vault@.tokens.dom().contains(k) implies vault@.owned(k) by {
            if k != wallet && k != holding {
                assert(old(vault)@.tokens.dom().contains(k));
                assert(old(vault)@.owned(k));
            }
        }
    }
    Ok(())
}

} // verus!
