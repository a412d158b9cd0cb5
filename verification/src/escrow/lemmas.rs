//! What the three operations of the escrow do to balances and offers.

use vstd::prelude::*;
use crate::address::Address;
use crate::escrow::errors::EscrowError;
use crate::escrow::make_offer::MakeOffer;
use crate::escrow::refund_offer::RefundOffer;
use crate::escrow::state::{offer_seeds, Offer};
use crate::escrow::take_offer::TakeOffer;
use crate::escrow::EscrowView;
use crate::token::{balance, holding_of, wallet_of, TokenKey};

verus! {

impl EscrowView {
    /// Making an offer keeps the escrow valid. The offer is then the one
    /// recorded for its maker and id, its holding account holds exactly what
    /// was offered, the maker has that much less of the offered asset kind
    /// and has paid for the storage, and nothing else has changed.
    pub proof fn lemma_make_offer(
        self,
        context: MakeOffer,
        id: u64,
        token_a_offered_amount: u64,
        token_b_wanted_amount: u64,
    )
        requires
            self.valid(),
            self.make_offer_failure(context, id, token_a_offered_amount, token_b_wanted_amount)
                is None,
        ensures
            ({
                let after = self.after_make_offer(
                    context,
                    id,
                    token_a_offered_amount,
                    token_b_wanted_amount,
                );
                let (address, bump) = offer_seeds(context.maker, id).derived(self.program_id)->0;
                let maker_a = wallet_of(context.maker, context.token_mint_a);
                let holding = holding_of(address, context.token_mint_a);
                &&& after.valid()
                &&& after.offer_at(context.maker, id) == Some(
                    (
                        address,
                        Offer {
                            id,
                            maker: context.maker,
                            token_mint_a: context.token_mint_a,
                            token_mint_b: context.token_mint_b,
                            token_a_offered_amount,
                            token_b_wanted_amount,
                            bump,
                        },
                    ),
                )
                &&& !self.tokens.dom().contains(holding)
                &&& balance(after.tokens, holding) == token_a_offered_amount
                &&& balance(after.tokens, maker_a) == balance(self.tokens, maker_a)
                    - token_a_offered_amount
                &&& after.lamports[context.maker] == self.lamports[context.maker] - self.rent
                &&& after.resolved == self.resolved
                &&& forall|key: TokenKey|
                    key != maker_a && key != holding ==> after.tokens.dom().contains(key)
                        == self.tokens.dom().contains(key) && #[trigger] after.tokens[key]
                        == self.tokens[key]
                &&& forall|owner: Address|
                    owner != context.maker ==> #[trigger] after.lamports[owner]
                        == self.lamports[owner]
            }),
    {
        let after = self.after_make_offer(
            context,
            id,
            token_a_offered_amount,
            token_b_wanted_amount,
        );
        let (address, bump) = offer_seeds(context.maker, id).derived(self.program_id)->0;
        let maker_a = wallet_of(context.maker, context.token_mint_a);
        let holding = holding_of(address, context.token_mint_a);
        if self.tokens.dom().contains(holding) {
            assert(self.owned(holding));
        }
        assert forall|other: Address| #[trigger]
            after.offers.dom().contains(other) implies after.backed(other) by {
            if other != address {
                assert(self.backed(other));
            }
        }
        assert forall|key: TokenKey| #[trigger]
            after.tokens.dom().contains(key) implies after.owned(key) by {
            if key != holding && key != maker_a {
                assert(self.owned(key));
            }
        }
    }

    /// Taking an offer gives the taker what the offer held and the maker what
    /// the offer wanted, out of the taker's account; where the taker is the
    /// maker, that account pays itself and holds what it held. The offer and
    /// its holding account no longer exist, and the maker has the cost of
    /// their storage back. The escrow stays valid, and nothing else holds
    /// another amount than before.
    pub proof fn lemma_take_offer(self, context: TakeOffer)
        requires
            self.valid(),
            self.take_offer_failure(context) is None,
        ensures
            ({
                let after = self.after_take_offer(context);
                let (address, offer) = self.offer_at(context.maker, context.id)->0;
                let taker_b = wallet_of(context.taker, offer.token_mint_b);
                let maker_b = wallet_of(context.maker, offer.token_mint_b);
                let taker_a = wallet_of(context.taker, offer.token_mint_a);
                let holding = holding_of(address, offer.token_mint_a);
                &&& after.valid()
                &&& balance(after.tokens, taker_a) == balance(self.tokens, taker_a)
                    + offer.token_a_offered_amount
                &&& context.taker != context.maker ==> balance(after.tokens, maker_b) == balance(
                    self.tokens,
                    maker_b,
                ) + offer.token_b_wanted_amount
                &&& context.taker != context.maker ==> balance(after.tokens, taker_b) == balance(
                    self.tokens,
                    taker_b,
                ) - offer.token_b_wanted_amount
                &&& context.taker == context.maker ==> balance(after.tokens, maker_b) == balance(
                    self.tokens,
                    maker_b,
                )
                &&& !after.offers.dom().contains(address)
                &&& !after.tokens.dom().contains(holding)
                &&& after.offer_at(context.maker, context.id) is None
                &&& after.resolved == self.resolved.insert(address)
                &&& after.lamports[context.maker] == self.lamports[context.maker] + self.rent
                &&& forall|key: TokenKey|
                    key != taker_a && key != taker_b && key != maker_b && key != holding
                        ==> after.tokens.dom().contains(key) == self.tokens.dom().contains(key)
                        && #[trigger] after.tokens[key] == self.tokens[key]
                &&& forall|owner: Address|
                    owner != context.maker ==> #[trigger] after.lamports[owner]
                        == self.lamports[owner]
            }),
    {
        let after = self.after_take_offer(context);
        let (address, offer) = self.offer_at(context.maker, context.id)->0;
        assert(self.backed(address));
        assert forall|other: Address| #[trigger]
            after.offers.dom().contains(other) implies after.backed(other) by {
            assert(self.backed(other));
        }
        assert forall|key: TokenKey| #[trigger]
            after.tokens.dom().contains(key) implies after.owned(key) by {
            if key.holder is Authority {
                assert(self.tokens.dom().contains(key));
                assert(self.owned(key));
            }
        }
    }

    /// Refunding an offer gives the maker, whose offer it is, back what the
    /// offer held and the cost of its storage. The offer and its holding
    /// account no longer exist, the escrow stays valid, and nothing else has
    /// changed: nothing of the wanted asset kind has moved.
    pub proof fn lemma_refund_offer(self, context: RefundOffer)
        requires
            self.valid(),
            self.refund_offer_failure(context) is None,
        ensures
            ({
                let after = self.after_refund_offer(context);
                let (address, offer) = self.offer_at(context.maker, context.id)->0;
                let maker_a = wallet_of(context.maker, offer.token_mint_a);
                let holding = holding_of(address, offer.token_mint_a);
                &&& after.valid()
                &&& offer.maker == context.maker
                &&& balance(after.tokens, maker_a) == balance(self.tokens, maker_a)
                    + offer.token_a_offered_amount
                &&& !after.offers.dom().contains(address)
                &&& !after.tokens.dom().contains(holding)
                &&& after.offer_at(context.maker, context.id) is None
                &&& after.resolved == self.resolved.insert(address)
                &&& after.lamports[context.maker] == self.lamports[context.maker] + self.rent
                &&& forall|key: TokenKey|
                    key != maker_a && key != holding ==> after.tokens.dom().contains(key)
                        == self.tokens.dom().contains(key) && #[trigger] after.tokens[key]
                        == self.tokens[key]
                &&& forall|owner: Address|
                    owner != context.maker ==> #[trigger] after.lamports[owner]
                        == self.lamports[owner]
            }),
    {
        let after = self.after_refund_offer(context);
        let (address, offer) = self.offer_at(context.maker, context.id)->0;
        assert(self.backed(address));
        assert forall|other: Address| #[trigger]
            after.offers.dom().contains(other) implies after.backed(other) by {
            assert(self.backed(other));
        }
        assert forall|key: TokenKey| #[trigger]
            after.tokens.dom().contains(key) implies after.owned(key) by {
            if key.holder is Authority {
                assert(self.tokens.dom().contains(key));
                assert(self.owned(key));
            }
        }
    }

    /// An offer refunded right after it was made leaves the escrow as it was
    /// before the offer, but for the id, which is used up: the refund cannot
    /// fail, and the maker's balance and what the maker paid for storage are
    /// back at their values from before.
    pub proof fn lemma_make_then_refund(
        self,
        context: MakeOffer,
        id: u64,
        token_a_offered_amount: u64,
        token_b_wanted_amount: u64,
    )
        requires
            self.valid(),
            self.make_offer_failure(context, id, token_a_offered_amount, token_b_wanted_amount)
                is None,
        ensures
            ({
                let made = self.after_make_offer(
                    context,
                    id,
                    token_a_offered_amount,
                    token_b_wanted_amount,
                );
                let refund = RefundOffer { maker: context.maker, id };
                let (address, bump) = offer_seeds(context.maker, id).derived(self.program_id)->0;
                &&& made.refund_offer_failure(refund) is None
                &&& made.after_refund_offer(refund) == (EscrowView {
                    resolved: self.resolved.insert(address),
                    ..self
                })
            }),
    {
        let made = self.after_make_offer(
            context,
            id,
            token_a_offered_amount,
            token_b_wanted_amount,
        );
        let refund = RefundOffer { maker: context.maker, id };
        self.lemma_make_offer(context, id, token_a_offered_amount, token_b_wanted_amount);
        let back = made.after_refund_offer(refund);
        assert(back.tokens =~= self.tokens);
        assert(back.offers =~= self.offers);
        assert(back.lamports =~= self.lamports);
    }

    /// An id that its maker has used for an offer that was taken or refunded
    /// stays used: no offer is recorded for it, so that a take and a refund
    /// find none, and no offer can be made under it.
    pub proof fn lemma_resolved_offer_stays_gone(
        self,
        maker: Address,
        id: u64,
        taker: Address,
        context: MakeOffer,
        token_a_offered_amount: u64,
        token_b_wanted_amount: u64,
    )
        requires
            self.valid(),
            offer_seeds(maker, id).derived(self.program_id) is Some,
            self.resolved.contains((offer_seeds(maker, id).derived(self.program_id)->0).0),
            context.maker == maker,
        ensures
            self.offer_at(maker, id) is None,
            self.take_offer_failure(TakeOffer { taker, maker, id }) == Some(
                EscrowError::OfferNotFound,
            ),
            self.refund_offer_failure(RefundOffer { maker, id }) == Some(
                EscrowError::OfferNotFound,
            ),
            self.make_offer_failure(context, id, token_a_offered_amount, token_b_wanted_amount)
                == Some(EscrowError::OfferResolved),
    {
    }

    /// Once an offer has been taken, it can be neither taken nor refunded:
    /// both find no offer.
    pub proof fn lemma_taken_offer_is_gone(self, context: TakeOffer, taker: Address)
        requires
            self.valid(),
            self.take_offer_failure(context) is None,
        ensures
            ({
                let after = self.after_take_offer(context);
                &&& after.take_offer_failure(
                    TakeOffer { taker, maker: context.maker, id: context.id },
                ) == Some(EscrowError::OfferNotFound)
                &&& after.refund_offer_failure(
                    RefundOffer { maker: context.maker, id: context.id },
                ) == Some(EscrowError::OfferNotFound)
            }),
    {
        self.lemma_take_offer(context);
    }

    /// Once an offer has been refunded, it can be neither taken nor refunded:
    /// both find no offer.
    pub proof fn lemma_refunded_offer_is_gone(self, context: RefundOffer, taker: Address)
        requires
            self.valid(),
            self.refund_offer_failure(context) is None,
        ensures
            ({
                let after = self.after_refund_offer(context);
                &&& after.take_offer_failure(
                    TakeOffer { taker, maker: context.maker, id: context.id },
                ) == Some(EscrowError::OfferNotFound)
                &&& after.refund_offer_failure(context) == Some(EscrowError::OfferNotFound)
            }),
    {
        self.lemma_refund_offer(context);
    }
}

} // verus!
