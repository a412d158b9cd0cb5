//! Making an offer: the maker's tokens go into the offer's holding account,
//! then the offer is written down.

use vstd::prelude::*;
use crate::address::Address;
use crate::escrow::errors::EscrowErrorCode;
use crate::escrow::state::Offer;
use crate::table::Key;
use crate::token::{
    balance, holding_of, transfer_failure, transfer_tokens, transferred, wallet_of, Authorization,
    Holder, Ledger, TokenKey,
};

verus! {

/// Who makes an offer, and of which asset kinds.
#[derive(Clone, Copy, Debug)]
pub struct MakeOffer {
    /// The user making the offer, who signs.
    pub maker: Address,
    /// The asset kind offered.
    pub token_mint_a: Address,
    /// The asset kind wanted.
    pub token_mint_b: Address,
}

/// Why the maker's tokens cannot go to the holding account of `vault`, if
/// they cannot.
pub open spec fn send_offered_failure(
    tokens: Map<TokenKey, u64>,
    context: MakeOffer,
    vault: Address,
    amount: u64,
) -> Option<EscrowErrorCode> {
    let source = wallet_of(context.maker, context.token_mint_a);
    let destination = holding_of(vault, context.token_mint_a);
    if amount == 0 {
        Some(EscrowErrorCode::InvalidAmount)
    } else if balance(tokens, source) < amount {
        Some(EscrowErrorCode::InsufficientMakerBalance)
    } else if context.token_mint_a == context.token_mint_b {
        Some(EscrowErrorCode::InvalidTokenMint)
    } else if transfer_failure(tokens, source, destination, amount, true) is Some {
        Some(EscrowErrorCode::TokenTransferFailed)
    } else {
        None
    }
}

/// Moves the offered tokens from the maker's account to the holding account
/// of the derived authority `vault`, on the maker's signature.
pub fn send_offered_tokens_to_vault(
    tokens: &mut Ledger,
    context: &MakeOffer,
    vault: &Address,
    token_a_offered_amount: u64,
) -> (r: Result<(), EscrowErrorCode>)
    requires
        old(tokens).wf(),
    ensures
        final(tokens).wf(),
        match r {
            Ok(()) => {
                &&& send_offered_failure(old(tokens)@, *context, *vault, token_a_offered_amount)
                    is None
                &&& final(tokens)@ == transferred(
                    old(tokens)@,
                    wallet_of(context.maker, context.token_mint_a),
                    holding_of(*vault, context.token_mint_a),
                    token_a_offered_amount,
                )
            },
            Err(e) => {
                &&& send_offered_failure(old(tokens)@, *context, *vault, token_a_offered_amount)
                    == Some(e)
                &&& final(tokens)@ == old(tokens)@
            },
        },
{
    if token_a_offered_amount == 0 {
        return Err(EscrowErrorCode::InvalidAmount);
    }
    let held = match tokens.amount(&TokenKey::wallet(context.maker, context.token_mint_a)) {
        Some(held) => held,
        None => 0,
    };
    if held < token_a_offered_amount {
        return Err(EscrowErrorCode::InsufficientMakerBalance);
    }
    if context.token_mint_a.same(&context.token_mint_b) {
        return Err(EscrowErrorCode::InvalidTokenMint);
    }
    match transfer_tokens(
        tokens,
        &Holder::Wallet(context.maker),
        &Holder::Authority(*vault),
        token_a_offered_amount,
        &context.token_mint_a,
        &Authorization::Signature(context.maker),
    ) {
        Ok(()) => Ok(()),
        Err(_) => Err(EscrowErrorCode::TokenTransferFailed),
    }
}

/// The record of the offer, which asks for a positive amount in return.
pub fn save_offer_details(
    context: &MakeOffer,
    id: u64,
    token_a_offered_amount: u64,
    token_b_wanted_amount: u64,
    bump: u8,
) -> (r: Result<Offer, EscrowErrorCode>)
    ensures
        r == if token_b_wanted_amount == 0 {
            Err::<Offer, EscrowErrorCode>(EscrowErrorCode::InvalidAmount)
        } else {
            Ok(
                Offer {
                    id,
                    maker: context.maker,
                    token_mint_a: context.token_mint_a,
                    token_mint_b: context.token_mint_b,
                    token_a_offered_amount,
                    token_b_wanted_amount,
                    bump,
                },
            )
        },
{
    if token_b_wanted_amount == 0 {
        return Err(EscrowErrorCode::InvalidAmount);
    }
    Ok(
        Offer {
            id,
            maker: context.maker,
            token_mint_a: context.token_mint_a,
            token_mint_b: context.token_mint_b,
            token_a_offered_amount,
            token_b_wanted_amount,
            bump,
        },
    )
}

} // verus!
