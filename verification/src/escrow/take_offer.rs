//! Taking an offer: the taker pays the maker what the offer wants, then
//! receives what the offer holds, and the holding account is closed.

use vstd::prelude::*;
use crate::address::Address;
use crate::escrow::errors::EscrowErrorCode;
use crate::escrow::state::Offer;
use crate::table::Key;
use crate::token::{
    balance, close_ata, close_failure, holding_of, transfer_failure, transfer_tokens, transferred,
    wallet_of, Authorization, Holder, Ledger, TokenKey,
};

verus! {

/// Who takes which offer.
#[derive(Clone, Copy, Debug)]
pub struct TakeOffer {
    /// The user taking the offer, who signs.
    pub taker: Address,
    /// The maker of the offer.
    pub maker: Address,
    /// The maker's id of the offer.
    pub id: u64,
}

/// Why the taker's payment to the maker fails, if it does.
pub open spec fn send_wanted_failure(
    tokens: Map<TokenKey, u64>,
    context: TakeOffer,
    offer: Offer,
) -> Option<EscrowErrorCode> {
    let source = wallet_of(context.taker, offer.token_mint_b);
    let destination = wallet_of(context.maker, offer.token_mint_b);
    if balance(tokens, source) < offer.token_b_wanted_amount {
        Some(EscrowErrorCode::InsufficientTakerBalance)
    } else if offer.token_mint_a == offer.token_mint_b {
        Some(EscrowErrorCode::InvalidTokenMint)
    } else if transfer_failure(tokens, source, destination, offer.token_b_wanted_amount, true)
        is Some {
        Some(EscrowErrorCode::TokenTransferFailed)
    } else {
        None
    }
}

/// Moves the wanted tokens from the taker's account to the maker's, on the
/// taker's signature.
pub fn send_wanted_tokens_to_maker(tokens: &mut Ledger, context: &TakeOffer, offer: &Offer) -> (r:
    Result<(), EscrowErrorCode>)
    requires
        old(tokens).wf(),
    ensures
        final(tokens).wf(),
        match r {
            Ok(()) => {
                &&& send_wanted_failure(old(tokens)@, *context, *offer) is None
                &&& final(tokens)@ == transferred(
                    old(tokens)@,
                    wallet_of(context.taker, offer.token_mint_b),
                    wallet_of(context.maker, offer.token_mint_b),
                    offer.token_b_wanted_amount,
                )
            },
            Err(e) => {
                &&& send_wanted_failure(old(tokens)@, *context, *offer) == Some(e)
                &&& final(tokens)@ == old(tokens)@
            },
        },
{
    let held = match tokens.amount(&TokenKey::wallet(context.taker, offer.token_mint_b)) {
        Some(held) => held,
        None => 0,
    };
    if held < offer.token_b_wanted_amount {
        return Err(EscrowErrorCode::InsufficientTakerBalance);
    }
    if offer.token_mint_a.same(&offer.token_mint_b) {
        return Err(EscrowErrorCode::InvalidTokenMint);
    }
    match transfer_tokens(
        tokens,
        &Holder::Wallet(context.taker),
        &Holder::Wallet(context.maker),
        offer.token_b_wanted_amount,
        &offer.token_mint_b,
        &Authorization::Signature(context.taker),
    ) {
        Ok(()) => Ok(()),
        Err(_) => Err(EscrowErrorCode::TokenTransferFailed),
    }
}

/// Why the release of what the holding account of `vault` holds to the taker
/// fails, if it does.
pub open spec fn withdraw_failure(
    tokens: Map<TokenKey, u64>,
    context: TakeOffer,
    offer: Offer,
    vault: Address,
    program_id: Address,
) -> Option<EscrowErrorCode> {
    let source = holding_of(vault, offer.token_mint_a);
    let destination = wallet_of(context.taker, offer.token_mint_a);
    let authorized = offer.authorizes(vault, program_id);
    if transfer_failure(tokens, source, destination, offer.token_a_offered_amount, authorized)
        is Some {
        Some(EscrowErrorCode::TokenTransferFailed)
    } else if close_failure(
        transferred(tokens, source, destination, offer.token_a_offered_amount),
        source,
        authorized,
    ) is Some {
        Some(EscrowErrorCode::FailedVaultClosure)
    } else {
        None
    }
}

/// Moves the offered tokens from the holding account of `vault` to the taker
/// and closes the holding account, on the proof that the offer's seeds and
/// bump seed give.
pub fn withdraw_tokens_from_vault_to_taker(
    tokens: &mut Ledger,
    context: &TakeOffer,
    offer: &Offer,
    vault: &Address,
    program_id: &Address,
) -> (r: Result<(), EscrowErrorCode>)
    requires
        old(tokens).wf(),
    ensures
        final(tokens).wf(),
        match r {
            Ok(()) => {
                &&& withdraw_failure(old(tokens)@, *context, *offer, *vault, *program_id) is None
                &&& final(tokens)@ == transferred(
                    old(tokens)@,
                    holding_of(*vault, offer.token_mint_a),
                    wallet_of(context.taker, offer.token_mint_a),
                    offer.token_a_offered_amount,
                ).remove(holding_of(*vault, offer.token_mint_a))
            },
            Err(e) => {
                &&& withdraw_failure(old(tokens)@, *context, *offer, *vault, *program_id) == Some(e)
                &&& final(tokens)@ == old(tokens)@
            },
        },
{
    let proof = match offer.authority().authorize(program_id) {
        Ok(proof) => proof,
        Err(_) => {
            return Err(EscrowErrorCode::TokenTransferFailed);
        },
    };
    let authorization = Authorization::Proof(proof);
    let mut staged = tokens.snapshot();
    match transfer_tokens(
        &mut staged,
        &Holder::Authority(*vault),
        &Holder::Wallet(context.taker),
        offer.token_a_offered_amount,
        &offer.token_mint_a,
        &authorization,
    ) {
        Ok(()) => {},
        Err(_) => {
            return Err(EscrowErrorCode::TokenTransferFailed);
        },
    }
    match close_ata(&mut staged, &TokenKey::holding(*vault, offer.token_mint_a), &authorization) {
        Ok(()) => {},
        Err(_) => {
            return Err(EscrowErrorCode::FailedVaultClosure);
        },
    }
    *tokens = staged;
    Ok(())
}

} // verus!
