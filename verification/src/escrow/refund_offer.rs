//! Refunding an offer: what the holding account holds goes back to the
//! maker, and the holding account is closed.

use vstd::prelude::*;
use crate::address::Address;
use crate::escrow::errors::EscrowErrorCode;
use crate::escrow::state::Offer;
use crate::token::{
    balance, close_ata, close_failure, holding_of, transfer_failure, transfer_tokens, transferred,
    wallet_of, Authorization, Holder, Ledger, TokenKey,
};

verus! {

/// Who asks for which offer back.
#[derive(Clone, Copy, Debug)]
pub struct RefundOffer {
    /// The maker of the offer, who signs.
    pub maker: Address,
    /// The maker's id of the offer.
    pub id: u64,
}

/// Why the refund of what the holding account of `vault` holds fails, if it
/// does.
pub open spec fn refund_failure(
    tokens: Map<TokenKey, u64>,
    context: RefundOffer,
    offer: Offer,
    vault: Address,
    program_id: Address,
) -> Option<EscrowErrorCode> {
    let source = holding_of(vault, offer.token_mint_a);
    let destination = wallet_of(context.maker, offer.token_mint_a);
    let authorized = offer.authorizes(vault, program_id);
    let amount = balance(tokens, source);
    if transfer_failure(tokens, source, destination, amount, authorized) is Some {
        Some(EscrowErrorCode::FailedRefundTransfer)
    } else if close_failure(transferred(tokens, source, destination, amount), source, authorized)
        is Some {
        Some(EscrowErrorCode::FailedRefundClosure)
    } else {
        None
    }
}

/// Moves all that the holding account of `vault` holds to the maker and
/// closes the holding account, on the proof that the offer's seeds and bump
/// seed give.
pub fn refund_tokens_to_maker(
    tokens: &mut Ledger,
    context: &RefundOffer,
    offer: &Offer,
    vault: &Address,
    program_id: &Address,
) -> (r: Result<(), EscrowErrorCode>)
    requires
        old(tokens).wf(),
    ensures
        final(tokens).wf(),
        match r {
            Ok(()) => {
                &&& refund_failure(old(tokens)@, *context, *offer, *vault, *program_id) is None
                &&& final(tokens)@ == transferred(
                    old(tokens)@,
                    holding_of(*vault, offer.token_mint_a),
                    wallet_of(context.maker, offer.token_mint_a),
                    balance(old(tokens)@, holding_of(*vault, offer.token_mint_a)),
                ).remove(holding_of(*vault, offer.token_mint_a))
            },
            Err(e) => {
                &&& refund_failure(old(tokens)@, *context, *offer, *vault, *program_id) == Some(e)
                &&& final(tokens)@ == old(tokens)@
            },
        },
{
    let source = TokenKey::holding(*vault, offer.token_mint_a);
    let amount = match tokens.amount(&source) {
        Some(held) => held,
        None => 0,
    };
    let proof = match offer.authority().authorize(program_id) {
        Ok(proof) => proof,
        Err(_) => {
            return Err(EscrowErrorCode::FailedRefundTransfer);
        },
    };
    let authorization = Authorization::Proof(proof);
    let mut staged = tokens.snapshot();
    match transfer_tokens(
        &mut staged,
        &Holder::Authority(*vault),
        &Holder::Wallet(context.maker),
        amount,
        &offer.token_mint_a,
        &authorization,
    ) {
        Ok(()) => {},
        Err(_) => {
            return Err(EscrowErrorCode::FailedRefundTransfer);
        },
    }
    match close_ata(&mut staged, &source, &authorization) {
        Ok(()) => {},
        Err(_) => {
            return Err(EscrowErrorCode::FailedRefundClosure);
        },
    }
    *tokens = staged;
    Ok(())
}

} // verus!
