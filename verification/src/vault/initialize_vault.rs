//! Setting up the vault's own record.

use vstd::prelude::*;
use crate::address::Address;
use crate::vault::state::VaultState;

verus! {

/// Who sets the vault up.
#[derive(Clone, Copy, Debug)]
pub struct InitializeVault {
    /// The owner of the project, who signs.
    pub project_owner: Address,
}

/// The vault's record: its owner and the bump seed of its derived address.
pub fn handler(context: &InitializeVault, bump: u8) -> (r: VaultState)
    ensures
        r == (VaultState { project_owner: context.project_owner, bump }),
{
    VaultState { project_owner: context.project_owner, bump }
}

} // verus!
