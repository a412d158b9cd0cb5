//! The records of the vault: its own, and one for each depositor and asset
//! kind.

use vstd::prelude::*;
use crate::address::Address;
use crate::authority::{DerivedAuthority, Discriminator, SeedTag, Seeds};
use crate::vault::error::VaultError;

verus! {

/// The vault's own record. The address derived for it is the authority over
/// every holding account of the vault.
#[derive(Clone, Copy, Debug, PartialEq, Eq)]
pub struct VaultState {
    pub project_owner: Address,
    /// The bump seed of the vault's derived address.
    pub bump: u8,
}

/// The seeds from which the address of the vault of `project_owner` is derived.
pub open spec fn vault_seeds(project_owner: Address) -> Seeds {
    Seeds { tag: SeedTag::VaultState, owner: project_owner, discriminator: Discriminator::Nothing }
}

/// The seeds from which the address of the record of `user` for `token_mint`
/// is derived.
pub open spec fn user_seeds(user: Address, token_mint: Address) -> Seeds {
    Seeds { tag: SeedTag::UserState, owner: user, discriminator: Discriminator::Key(token_mint) }
}

impl VaultState {
    /// The seeds of the vault's derived address.
    pub fn seeds(project_owner: &Address) -> (r: Seeds)
        ensures
            r == vault_seeds(*project_owner),
    {
        Seeds {
            tag: SeedTag::VaultState,
            owner: *project_owner,
            discriminator: Discriminator::Nothing,
        }
    }

    /// The derived authority over the vault's holding accounts.
    pub open spec fn spec_authority(&self) -> DerivedAuthority {
        DerivedAuthority { seeds: vault_seeds(self.project_owner), bump: self.bump }
    }

    /// Whether the seeds and bump seed that the vault records stand for
    /// `vault` under `program_id`.
    pub open spec fn authorizes(self, vault: Address, program_id: Address) -> bool {
        self.spec_authority().address(program_id) == Some(vault)
    }

    /// The derived authority over the vault's holding accounts.
    #[verifier::when_used_as_spec(spec_authority)]
    pub fn authority(&self) -> (r: DerivedAuthority)
        ensures
            r == self.spec_authority(),
    {
        DerivedAuthority { seeds: VaultState::seeds(&self.project_owner), bump: self.bump }
    }
}

/// The balance record of one depositor for one asset kind.
#[derive(Clone, Copy, Debug, PartialEq, Eq)]
pub struct UserState {
    pub user: Address,
    pub token_mint: Address,
    /// All that was ever deposited; never decreases.
    pub total_deposited: u64,
    /// All that was ever withdrawn; never decreases.
    pub total_withdrawn: u64,
    /// What can be withdrawn: deposits less withdrawals.
    pub available_balance: u64,
    /// The bump seed of the record's derived address.
    pub bump: u8,
}

impl UserState {
    /// The seeds of the record's derived address.
    pub fn seeds(user: &Address, token_mint: &Address) -> (r: Seeds)
        ensures
            r == user_seeds(*user, *token_mint),
    {
        Seeds {
            tag: SeedTag::UserState,
            owner: *user,
            discriminator: Discriminator::Key(*token_mint),
        }
    }

    /// What is available is what was deposited less what was withdrawn.
    pub open spec fn wf(self) -> bool {
        self.available_balance + self.total_withdrawn == self.total_deposited
    }

    /// The record of a depositor who has deposited nothing yet.
    pub fn new(user: Address, token_mint: Address, bump: u8) -> (r: UserState)
        ensures
            r == (UserState {
                user,
                token_mint,
                total_deposited: 0,
                total_withdrawn: 0,
                available_balance: 0,
                bump,
            }),
            r.wf(),
    {
        UserState {
            user,
            token_mint,
            total_deposited: 0,
            total_withdrawn: 0,
            available_balance: 0,
            bump,
        }
    }

    /// The record after a deposit of `amount`.
    pub open spec fn deposited(self, amount: u64) -> UserState {
        UserState {
            total_deposited: (self.total_deposited + amount) as u64,
            available_balance: (self.available_balance + amount) as u64,
            ..self
        }
    }

    /// The record after a withdrawal of `amount`.
    pub open spec fn withdrawn(self, amount: u64) -> UserState {
        UserState {
            total_withdrawn: (self.total_withdrawn + amount) as u64,
            available_balance: (self.available_balance - amount) as u64,
            ..self
        }
    }

    /// Whether a deposit of `amount` is more than the record can count.
    pub open spec fn deposit_overflows(self, amount: u64) -> bool {
        self.available_balance + amount > u64::MAX || self.total_deposited + amount > u64::MAX
    }

    /// Whether a withdrawal of `amount` is more than the record holds or can count.
    pub open spec fn withdrawal_overflows(self, amount: u64) -> bool {
        self.available_balance < amount || self.total_withdrawn + amount > u64::MAX
    }

    /// Counts a deposit: what is available and what was deposited grow by
    /// `amount`, or the record stays as it is.
    pub fn record_deposit(&mut self, amount: u64) -> (r: Result<(), VaultError>)
        ensures
            match r {
                Ok(()) => {
                    &&& !old(self).deposit_overflows(amount)
                    &&& *final(self) == old(self).deposited(amount)
                },
                Err(e) => {
                    &&& old(self).deposit_overflows(amount)
                    &&& *final(self) == *old(self)
                    &&& e == VaultError::Overflow
                },
            },
            old(self).wf() ==> final(self).wf(),
    {
        let available = match self.available_balance.checked_add(amount) {
            Some(sum) => sum,
            None => {
                return Err(VaultError::Overflow);
            },
        };
        let deposited = match self.total_deposited.checked_add(amount) {
            Some(sum) => sum,
            None => {
                return Err(VaultError::Overflow);
            },
        };
        self.available_balance = available;
        self.total_deposited = deposited;
        Ok(())
    }

    /// Counts a withdrawal: what is available shrinks and what was withdrawn
    /// grows by `amount`, or the record stays as it is.
    pub fn record_withdrawal(&mut self, amount: u64) -> (r: Result<(), VaultError>)
        ensures
            match r {
                Ok(()) => {
                    &&& !old(self).withdrawal_overflows(amount)
                    &&& *final(self) == old(self).withdrawn(amount)
                },
                Err(e) => {
                    &&& old(self).withdrawal_overflows(amount)
                    &&& *final(self) == *old(self)
                    &&& e == VaultError::Overflow
                },
            },
            old(self).wf() ==> final(self).wf(),
    {
        let available = match self.available_balance.checked_sub(amount) {
            Some(rest) => rest,
            None => {
                return Err(VaultError::Overflow);
            },
        };
        let withdrawn = match self.total_withdrawn.checked_add(amount) {
            Some(sum) => sum,
            None => {
                return Err(VaultError::Overflow);
            },
        };
        self.available_balance = available;
        self.total_withdrawn = withdrawn;
        Ok(())
    }
}

/// What `record` has available of the asset kind `mint`.
pub open spec fn share(record: UserState, mint: Address) -> nat {
    if record.token_mint == mint {
        record.available_balance as nat
    } else {
        0
    }
}

/// What the records together have available of the asset kind `mint`: what
/// the vault owes its depositors of it.
pub open spec fn owed(records: Seq<UserState>, mint: Address) -> nat
    decreases records.len(),
{
    if records.len() == 0 {
        0
    } else {
        owed(records.drop_last(), mint) + share(records.last(), mint)
    }
}

/// A new record adds its share to what is owed.
pub proof fn lemma_owed_push(records: Seq<UserState>, record: UserState, mint: Address)
    ensures
        owed(records.push(record), mint) == owed(records, mint) + share(record, mint),
{
    assert(records.push(record).drop_last() =~= records);
}

/// A changed record changes what is owed by the change of its share.
pub proof fn lemma_owed_update(records: Seq<UserState>, i: int, record: UserState, mint: Address)
    requires
        0 <= i < records.len(),
    ensures
        owed(records.update(i, record), mint) == owed(records, mint) - share(records[i], mint)
            + share(record, mint),
        share(records[i], mint) <= owed(records, mint),
    decreases records.len(),
{
    if i == records.len() - 1 {
        assert(records.update(i, record).drop_last() =~= records.drop_last());
    } else {
        lemma_owed_update(records.drop_last(), i, record, mint);
        assert(records.update(i, record).drop_last() =~= records.drop_last().update(i, record));
    }
}

} // verus!
