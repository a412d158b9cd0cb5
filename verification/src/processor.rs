//! The vault program's entry: an instruction arrives as bytes with the
//! accounts it names, is decoded and checked, and is carried out on the
//! vault.

use vstd::prelude::*;
use crate::address::Address;
use crate::instruction::VaultInstruction;
use crate::vault::deposit_tokens::DepositTokens;
use crate::vault::error::VaultError;
use crate::vault::initialize_user::InitializeUser;
use crate::vault::initialize_vault::InitializeVault;
use crate::vault::state::{user_seeds, vault_seeds, UserState, VaultState};
use crate::vault::withdraw_tokens::WithdrawTokens;
use crate::vault::{
    deposit_tokens, initialize_user, initialize_vault, withdraw_tokens, Vault, VaultView,
};

verus! {

/// An account as an instruction names it.
#[derive(Clone, Copy, Debug)]
pub struct AccountInfo {
    pub key: Address,
    /// Whether the account's owner has signed the instruction.
    pub is_signer: bool,
    /// Whether the instruction may change the account.
    pub is_writable: bool,
}

/// Why the accounts of an `InitializeVault` do not pass, if they do not.
/// They are the payer, who signs and becomes the vault's owner, and the
/// vault's record.
pub open spec fn initialize_vault_accounts_failure(
    program_id: Address,
    accounts: Seq<AccountInfo>,
) -> Option<VaultError> {
    if accounts.len() < 2 {
        Some(VaultError::InvalidInstruction)
    } else if !accounts[0].is_signer {
        Some(VaultError::NotSigner)
    } else if !accounts[1].is_writable {
        Some(VaultError::AccountNotMutable)
    } else {
        match vault_seeds(accounts[0].key).derived(program_id) {
            Some((address, bump)) => if address == accounts[1].key {
                None
            } else {
                Some(VaultError::InvalidVaultAuthority)
            },
            None => Some(VaultError::InvalidVaultAuthority),
        }
    }
}

/// Why the accounts of an `InitializeUser` do not pass, if they do not. They
/// are the user, who signs, the user's record, and the asset kind.
pub open spec fn initialize_user_accounts_failure(
    program_id: Address,
    accounts: Seq<AccountInfo>,
) -> Option<VaultError> {
    if accounts.len() < 3 {
        Some(VaultError::InvalidInstruction)
    } else if !accounts[0].is_signer {
        Some(VaultError::NotSigner)
    } else if !accounts[1].is_writable {
        Some(VaultError::AccountNotMutable)
    } else {
        match user_seeds(accounts[0].key, accounts[2].key).derived(program_id) {
            Some((address, bump)) => if address == accounts[1].key {
                None
            } else {
                Some(VaultError::InvalidUserAccount)
            },
            None => Some(VaultError::InvalidUserAccount),
        }
    }
}

/// Why the accounts of a `Deposit` or a `Withdraw` do not pass, if they do
/// not. They are the depositor, who signs, the depositor's token account,
/// the vault's holding account, the depositor's record, and the asset kind.
pub open spec fn transfer_accounts_failure(
    program_id: Address,
    accounts: Seq<AccountInfo>,
) -> Option<VaultError> {
    if accounts.len() < 5 {
        Some(VaultError::InvalidInstruction)
    } else if !accounts[0].is_signer {
        Some(VaultError::NotSigner)
    } else if !accounts[3].is_writable || !accounts[1].is_writable || !accounts[2].is_writable {
        Some(VaultError::AccountNotMutable)
    } else {
        match user_seeds(accounts[0].key, accounts[4].key).derived(program_id) {
            Some((address, bump)) => if address == accounts[3].key {
                None
            } else {
                Some(VaultError::InvalidUserAccount)
            },
            None => Some(VaultError::InvalidUserAccount),
        }
    }
}

/// Why an instruction fails on `vault`, if it does.
pub open spec fn process_failure(
    vault: VaultView,
    accounts: Seq<AccountInfo>,
    instruction: VaultInstruction,
) -> Option<VaultError> {
    match instruction {
        VaultInstruction::InitializeVault => match initialize_vault_accounts_failure(
            vault.program_id,
            accounts,
        ) {
            Some(e) => Some(e),
            None => vault.initialize_vault_failure(
                InitializeVault { project_owner: accounts[0].key },
            ),
        },
        VaultInstruction::InitializeUser => match initialize_user_accounts_failure(
            vault.program_id,
            accounts,
        ) {
            Some(e) => Some(e),
            None => vault.initialize_user_failure(
                InitializeUser { user: accounts[0].key, token_mint: accounts[2].key },
            ),
        },
        VaultInstruction::Deposit { amount } => match transfer_accounts_failure(
            vault.program_id,
            accounts,
        ) {
            Some(e) => Some(e),
            None => vault.deposit_tokens_failure(
                DepositTokens { depositor: accounts[0].key, token_mint: accounts[4].key },
                amount,
            ),
        },
        VaultInstruction::Withdraw { amount } => match transfer_accounts_failure(
            vault.program_id,
            accounts,
        ) {
            Some(e) => Some(e),
            None => vault.withdraw_tokens_failure(
                WithdrawTokens { depositor: accounts[0].key, token_mint: accounts[4].key },
                amount,
            ),
        },
    }
}

/// The vault after an instruction has succeeded.
pub open spec fn processed(
    vault: VaultView,
    accounts: Seq<AccountInfo>,
    instruction: VaultInstruction,
) -> VaultView {
    match instruction {
        VaultInstruction::InitializeVault => vault.after_initialize_vault(
            InitializeVault { project_owner: accounts[0].key },
        ),
        VaultInstruction::InitializeUser => vault.after_initialize_user(
            InitializeUser { user: accounts[0].key, token_mint: accounts[2].key },
        ),
        VaultInstruction::Deposit { amount } => vault.after_deposit_tokens(
            DepositTokens { depositor: accounts[0].key, token_mint: accounts[4].key },
            amount,
        ),
        VaultInstruction::Withdraw { amount } => vault.after_withdraw_tokens(
            WithdrawTokens { depositor: accounts[0].key, token_mint: accounts[4].key },
            amount,
        ),
    }
}

/// Checks the accounts of an `InitializeVault`.
pub fn check_initialize_vault_accounts(program_id: &Address, accounts: &[AccountInfo]) -> (r:
    Result<(), VaultError>)
    ensures
        r == match initialize_vault_accounts_failure(*program_id, accounts@) {
            Some(e) => Err::<(), VaultError>(e),
            None => Ok(()),
        },
{
    if accounts.len() < 2 {
        return Err(VaultError::InvalidInstruction);
    }
    if !accounts[0].is_signer {
        return Err(VaultError::NotSigner);
    }
    if !accounts[1].is_writable {
        return Err(VaultError::AccountNotMutable);
    }
    match VaultState::seeds(&accounts[0].key).verify(program_id, &accounts[1].key) {
        Ok(_) => Ok(()),
        Err(_) => Err(VaultError::InvalidVaultAuthority),
    }
}

/// Checks the accounts of an `InitializeUser`.
pub fn check_initialize_user_accounts(program_id: &Address, accounts: &[AccountInfo]) -> (r: Result<
    (),
    VaultError,
>)
    ensures
        r == match initialize_user_accounts_failure(*program_id, accounts@) {
            Some(e) => Err::<(), VaultError>(e),
            None => Ok(()),
        },
{
    if accounts.len() < 3 {
        return Err(VaultError::InvalidInstruction);
    }
    if !accounts[0].is_signer {
        return Err(VaultError::NotSigner);
    }
    if !accounts[1].is_writable {
        return Err(VaultError::AccountNotMutable);
    }
    match UserState::seeds(&accounts[0].key, &accounts[2].key).verify(
        program_id,
        &accounts[1].key,
    ) {
        Ok(_) => Ok(()),
        Err(_) => Err(VaultError::InvalidUserAccount),
    }
}

/// Checks the accounts of a `Deposit` or a `Withdraw`.
pub fn check_transfer_accounts(program_id: &Address, accounts: &[AccountInfo]) -> (r: Result<
    (),
    VaultError,
>)
    ensures
        r == match transfer_accounts_failure(*program_id, accounts@) {
            Some(e) => Err::<(), VaultError>(e),
            None => Ok(()),
        },
{
    if accounts.len() < 5 {
        return Err(VaultError::InvalidInstruction);
    }
    if !accounts[0].is_signer {
        return Err(VaultError::NotSigner);
    }
    if !accounts[3].is_writable || !accounts[1].is_writable || !accounts[2].is_writable {
        return Err(VaultError::AccountNotMutable);
    }
    match UserState::seeds(&accounts[0].key, &accounts[4].key).verify(
        program_id,
        &accounts[3].key,
    ) {
        Ok(_) => Ok(()),
        Err(_) => Err(VaultError::InvalidUserAccount),
    }
}

/// Carries out one instruction: decodes it, checks the accounts it names,
/// and performs it on the vault. Bytes that are no instruction fail with
/// `InvalidInstruction`.
pub fn process_instruction(
    vault: &mut Vault,
    accounts: &[AccountInfo],
    instruction_data: &[u8],
) -> (r: Result<(), VaultError>)
    requires
        old(vault).wf(),
    ensures
        final(vault).wf(),
        match VaultInstruction::decoded(instruction_data@) {
            None => r == Err::<(), VaultError>(VaultError::InvalidInstruction) && final(vault)@
                == old(vault)@,
            Some(instruction) => match r {
                Ok(()) => {
                    &&& process_failure(old(vault)@, accounts@, instruction) is None
                    &&& final(vault)@ == processed(old(vault)@, accounts@, instruction)
                },
                Err(e) => {
                    &&& process_failure(old(vault)@, accounts@, instruction) == Some(e)
                    &&& final(vault)@ == old(vault)@
                },
            },
        },
{
    match VaultInstruction::try_from_slice(instruction_data) {
        None => Err(VaultError::InvalidInstruction),
        Some(VaultInstruction::InitializeVault) => process_initialize_vault(vault, accounts),
        Some(VaultInstruction::InitializeUser) => process_initialize_user(vault, accounts),
        Some(VaultInstruction::Deposit { amount }) => process_deposit(vault, accounts, amount),
        Some(VaultInstruction::Withdraw { amount }) => process_withdraw(vault, accounts, amount),
    }
}

/// Sets the vault up for the payer, who has signed, under the address
/// derived for the payer, which must be the address of the record named.
pub fn process_initialize_vault(vault: &mut Vault, accounts: &[AccountInfo]) -> (r: Result<
    (),
    VaultError,
>)
    requires
        old(vault).wf(),
    ensures
        final(vault).wf(),
        match r {
            Ok(()) => {
                &&& process_failure(old(vault)@, accounts@, VaultInstruction::InitializeVault)
                    is None
                &&& final(vault)@ == processed(
                    old(vault)@,
                    accounts@,
                    VaultInstruction::InitializeVault,
                )
            },
            Err(e) => {
                &&& process_failure(old(vault)@, accounts@, VaultInstruction::InitializeVault)
                    == Some(e)
                &&& final(vault)@ == old(vault)@
            },
        },
{
    match check_initialize_vault_accounts(&vault.program_id(), accounts) {
        Ok(()) => {},
        Err(e) => {
            return Err(e);
        },
    }
    initialize_vault(vault, &InitializeVault { project_owner: accounts[0].key })
}

/// Sets up the record of the user, who has signed, for the asset kind, under
/// the address derived for the two, which must be the address of the record
/// named.
pub fn process_initialize_user(vault: &mut Vault, accounts: &[AccountInfo]) -> (r: Result<
    (),
    VaultError,
>)
    requires
        old(vault).wf(),
    ensures
        final(vault).wf(),
        match r {
            Ok(()) => {
                &&& process_failure(old(vault)@, accounts@, VaultInstruction::InitializeUser)
                    is None
                &&& final(vault)@ == processed(
                    old(vault)@,
                    accounts@,
                    VaultInstruction::InitializeUser,
                )
            },
            Err(e) => {
                &&& process_failure(old(vault)@, accounts@, VaultInstruction::InitializeUser)
                    == Some(e)
                &&& final(vault)@ == old(vault)@
            },
        },
{
    match check_initialize_user_accounts(&vault.program_id(), accounts) {
        Ok(()) => {},
        Err(e) => {
            return Err(e);
        },
    }
    initialize_user(vault, &InitializeUser { user: accounts[0].key, token_mint: accounts[2].key })
}

/// Deposits `deposit_amount` for the depositor, who has signed, once the
/// accounts named have passed.
pub fn process_deposit(vault: &mut Vault, accounts: &[AccountInfo], deposit_amount: u64) -> (r:
    Result<(), VaultError>)
    requires
        old(vault).wf(),
    ensures
        final(vault).wf(),
        match r {
            Ok(()) => {
                &&& process_failure(
                    old(vault)@,
                    accounts@,
                    VaultInstruction::Deposit { amount: deposit_amount },
                ) is None
                &&& final(vault)@ == processed(
                    old(vault)@,
                    accounts@,
                    VaultInstruction::Deposit { amount: deposit_amount },
                )
            },
            Err(e) => {
                &&& process_failure(
                    old(vault)@,
                    accounts@,
                    VaultInstruction::Deposit { amount: deposit_amount },
                ) == Some(e)
                &&& final(vault)@ == old(vault)@
            },
        },
{
    match check_transfer_accounts(&vault.program_id(), accounts) {
        Ok(()) => {},
        Err(e) => {
            return Err(e);
        },
    }
    deposit_tokens(
        vault,
        &DepositTokens { depositor: accounts[0].key, token_mint: accounts[4].key },
        deposit_amount,
    )
}

/// Withdraws `withdraw_amount` for the depositor, who has signed, once the
/// accounts named have passed.
pub fn process_withdraw(vault: &mut Vault, accounts: &[AccountInfo], withdraw_amount: u64) -> (r:
    Result<(), VaultError>)
    requires
        old(vault).wf(),
    ensures
        final(vault).wf(),
        match r {
            Ok(()) => {
                &&& process_failure(
                    old(vault)@,
                    accounts@,
                    VaultInstruction::Withdraw { amount: withdraw_amount },
                ) is None
                &&& final(vault)@ == processed(
                    old(vault)@,
                    accounts@,
                    VaultInstruction::Withdraw { amount: withdraw_amount },
                )
            },
            Err(e) => {
                &&& process_failure(
                    old(vault)@,
                    accounts@,
                    VaultInstruction::Withdraw { amount: withdraw_amount },
                ) == Some(e)
                &&& final(vault)@ == old(vault)@
            },
        },
{
    match check_transfer_accounts(&vault.program_id(), accounts) {
        Ok(()) => {},
        Err(e) => {
            return Err(e);
        },
    }
    withdraw_tokens(
        vault,
        &WithdrawTokens { depositor: accounts[0].key, token_mint: accounts[4].key },
        withdraw_amount,
    )
}

} // verus!
