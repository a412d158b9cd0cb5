//! Setting up the balance record of a depositor for an asset kind.

use vstd::prelude::*;
use crate::address::Address;
use crate::vault::state::UserState;

verus! {

/// Who sets up a record for which asset kind.
#[derive(Clone, Copy, Debug)]
pub struct InitializeUser {
    /// The user whose record it is, who signs.
    pub user: Address,
    /// The asset kind.
    pub token_mint: Address,
}

/// The record of the user for the asset kind, which counts nothing yet.
pub fn handler(context: &InitializeUser, bump: u8) -> (r: UserState)
    ensures
        r == (UserState {
            user: context.user,
            token_mint: context.token_mint,
            total_deposited: 0,
            total_withdrawn: 0,
            available_balance: 0,
            bump,
        }),
        r.wf(),
{
    UserState::new(context.user, context.token_mint, bump)
}

} // verus!
