//! Registering an asset kind: the vault gets a holding account for it.

use vstd::prelude::*;
use crate::address::Address;
use crate::token::{holding_of, opened, Ledger, TokenKey};

verus! {

/// Who registers which asset kind.
#[derive(Clone, Copy, Debug)]
pub struct RegisterTokenMint {
    /// The owner of the project, who signs.
    pub project_owner: Address,
    /// The asset kind.
    pub token_mint: Address,
}

/// Opens the holding account of the vault's authority `vault` for the asset
/// kind, unless it exists.
pub fn handler(tokens: &mut Ledger, context: &RegisterTokenMint, vault: &Address)
    requires
        old(tokens).wf(),
    ensures
        final(tokens).wf(),
        final(tokens)@ == opened(old(tokens)@, holding_of(*vault, context.token_mint)),
{
    tokens.open_if_needed(TokenKey::holding(*vault, context.token_mint));
}

} // verus!
