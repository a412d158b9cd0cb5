//! The escrow engine: offers, each with a holding account of its own under a
//! derived authority, and the three operations that make, take and refund
//! them. Each operation takes place wholly or not at all. An offer ends by
//! being taken or by being refunded, once, and its maker cannot use its id
//! again. The maker pays for the storage of an offer and its holding account
//! when the offer is made and has it back when the offer is taken or
//! refunded.

pub mod errors;
pub mod lemmas;
pub mod make_offer;
pub mod refund_offer;
pub mod state;
pub mod take_offer;

use vstd::prelude::*;
use crate::address::Address;
use crate::escrow::errors::{EscrowError, EscrowErrorCode};
use crate::escrow::make_offer::{save_offer_details, send_offered_tokens_to_vault, MakeOffer};
use crate::escrow::refund_offer::{refund_tokens_to_maker, RefundOffer};
use crate::escrow::state::{offer_seeds, Offer};
use crate::escrow::take_offer::{
    send_wanted_tokens_to_maker, withdraw_tokens_from_vault_to_taker, TakeOffer,
};
use crate::table::{Key, Table};
use crate::token::{
    balance, holding_of, opened, transferred, wallet_of, Holder, Ledger, TokenError, TokenKey,
};

verus! {

/// What an escrow holds: the offers, each under its derived address, the
/// token accounts with their balances, and what each user has to pay for
/// storage with.
pub struct EscrowView {
    pub program_id: Address,
    /// What the storage of one offer and its holding account costs.
    pub rent: u64,
    pub offers: Map<Address, Offer>,
    /// The addresses of the offers that have been taken or refunded.
    pub resolved: Set<Address>,
    pub tokens: Map<TokenKey, u64>,
    /// What each user has to pay for storage with; nothing unless funded.
    pub lamports: Map<Address, u64>,
}

impl EscrowView {
    /// The offer recorded for `maker` and `id`, with the address it is kept under.
    pub open spec fn offer_at(self, maker: Address, id: u64) -> Option<(Address, Offer)> {
        match offer_seeds(maker, id).derived(self.program_id) {
            Some((address, bump)) => if self.offers.dom().contains(address)
                && self.offers[address].maker == maker && self.offers[address].id == id {
                Some((address, self.offers[address]))
            } else {
                None
            },
            None => None,
        }
    }

    /// The offer under `address` is kept under the address derived for its
    /// maker and id, asks and offers positive amounts of two asset kinds, and
    /// its holding account holds exactly what it offers.
    pub open spec fn backed(self, address: Address) -> bool {
        let offer = self.offers[address];
        &&& offer_seeds(offer.maker, offer.id).derived(self.program_id) == Some(
            (address, offer.bump),
        )
        &&& offer.token_mint_a != offer.token_mint_b
        &&& offer.token_a_offered_amount > 0
        &&& offer.token_b_wanted_amount > 0
        &&& self.tokens.dom().contains(holding_of(address, offer.token_mint_a))
        &&& self.tokens[holding_of(address, offer.token_mint_a)] == offer.token_a_offered_amount
    }

    /// The token account `key`, where a derived authority holds it, is the
    /// holding account of an offer.
    pub open spec fn owned(self, key: TokenKey) -> bool {
        match key.holder {
            Holder::Authority(address) => self.offers.dom().contains(address)
                && self.offers[address].token_mint_a == key.mint,
            Holder::Wallet(_) => true,
        }
    }

    /// Every offer is backed by its holding account and has not been taken
    /// or refunded, there is no holding account without its offer, and every
    /// user has an amount to pay for storage with, which may be nothing.
    pub open spec fn valid(self) -> bool {
        &&& forall|address: Address| #[trigger]
            self.offers.dom().contains(address) ==> self.backed(address)
                && !self.resolved.contains(address)
        &&& forall|key: TokenKey| #[trigger] self.tokens.dom().contains(key) ==> self.owned(key)
        &&& forall|owner: Address| #[trigger] self.lamports.dom().contains(owner)
    }

    /// Why `make_offer` fails, if it does.
    pub open spec fn make_offer_failure(
        self,
        context: MakeOffer,
        id: u64,
        token_a_offered_amount: u64,
        token_b_wanted_amount: u64,
    ) -> Option<EscrowError> {
        match offer_seeds(context.maker, id).derived(self.program_id) {
            None => Some(EscrowError::InvalidAuthority),
            Some((address, bump)) => if self.offers.dom().contains(address) {
                Some(EscrowError::OfferAlreadyExists)
            } else if self.resolved.contains(address) {
                Some(EscrowError::OfferResolved)
            } else if self.lamports[context.maker] < self.rent {
                Some(EscrowError::RentUnpaid)
            } else if token_a_offered_amount == 0 || token_b_wanted_amount == 0 {
                Some(EscrowError::Program(EscrowErrorCode::InvalidAmount))
            } else if balance(self.tokens, wallet_of(context.maker, context.token_mint_a))
                < token_a_offered_amount {
                Some(EscrowError::Program(EscrowErrorCode::InsufficientMakerBalance))
            } else if context.token_mint_a == context.token_mint_b {
                Some(EscrowError::Program(EscrowErrorCode::InvalidTokenMint))
            } else {
                None
            },
        }
    }

    /// The escrow after `make_offer` has succeeded.
    pub open spec fn after_make_offer(
        self,
        context: MakeOffer,
        id: u64,
        token_a_offered_amount: u64,
        token_b_wanted_amount: u64,
    ) -> EscrowView {
        let (address, bump) = offer_seeds(context.maker, id).derived(self.program_id)->0;
        let wallet = wallet_of(context.maker, context.token_mint_a);
        let holding = holding_of(address, context.token_mint_a);
        EscrowView {
            offers: self.offers.insert(
                address,
                Offer {
                    id,
                    maker: context.maker,
                    token_mint_a: context.token_mint_a,
                    token_mint_b: context.token_mint_b,
                    token_a_offered_amount,
                    token_b_wanted_amount,
                    bump,
                },
            ),
            tokens: self.tokens.insert(
                wallet,
                (self.tokens[wallet] - token_a_offered_amount) as u64,
            ).insert(holding, token_a_offered_amount),
            lamports: self.lamports.insert(
                context.maker,
                (self.lamports[context.maker] - self.rent) as u64,
            ),
            ..self
        }
    }

    /// Why `take_offer` fails, if it does.
    pub open spec fn take_offer_failure(self, context: TakeOffer) -> Option<EscrowError> {
        match self.offer_at(context.maker, context.id) {
            None => Some(EscrowError::OfferNotFound),
            Some((address, offer)) => if balance(
                self.tokens,
                wallet_of(context.taker, offer.token_mint_b),
            ) < offer.token_b_wanted_amount {
                Some(EscrowError::Program(EscrowErrorCode::InsufficientTakerBalance))
            } else if context.taker != context.maker && balance(
                self.tokens,
                wallet_of(context.maker, offer.token_mint_b),
            ) + offer.token_b_wanted_amount > u64::MAX {
                Some(EscrowError::Program(EscrowErrorCode::TokenTransferFailed))
            } else if balance(self.tokens, wallet_of(context.taker, offer.token_mint_a))
                + offer.token_a_offered_amount > u64::MAX {
                Some(EscrowError::Program(EscrowErrorCode::TokenTransferFailed))
            } else if self.lamports[context.maker] + self.rent > u64::MAX {
                Some(EscrowError::Program(EscrowErrorCode::FailedVaultClosure))
            } else {
                None
            },
        }
    }

    /// The escrow after `take_offer` has succeeded: the maker's and the
    /// taker's accounts are opened where they were missing, the taker has
    /// paid the maker, the holding account has paid the taker and is closed,
    /// the offer is gone, and the maker has the cost of their storage back.
    pub open spec fn after_take_offer(self, context: TakeOffer) -> EscrowView {
        let (address, offer) = self.offer_at(context.maker, context.id)->0;
        let taker_b = wallet_of(context.taker, offer.token_mint_b);
        let maker_b = wallet_of(context.maker, offer.token_mint_b);
        let taker_a = wallet_of(context.taker, offer.token_mint_a);
        let holding = holding_of(address, offer.token_mint_a);
        EscrowView {
            offers: self.offers.remove(address),
            resolved: self.resolved.insert(address),
            tokens: transferred(
                transferred(
                    opened(opened(self.tokens, maker_b), taker_a),
                    taker_b,
                    maker_b,
                    offer.token_b_wanted_amount,
                ),
                holding,
                taker_a,
                offer.token_a_offered_amount,
            ).remove(holding),
            lamports: self.lamports.insert(
                context.maker,
                (self.lamports[context.maker] + self.rent) as u64,
            ),
            ..self
        }
    }

    /// Why `refund_offer` fails, if it does.
    pub open spec fn refund_offer_failure(self, context: RefundOffer) -> Option<EscrowError> {
        match self.offer_at(context.maker, context.id) {
            None => Some(EscrowError::OfferNotFound),
            Some((address, offer)) => if !self.tokens.dom().contains(
                wallet_of(context.maker, offer.token_mint_a),
            ) || self.tokens[wallet_of(context.maker, offer.token_mint_a)]
                + offer.token_a_offered_amount > u64::MAX {
                Some(EscrowError::Program(EscrowErrorCode::FailedRefundTransfer))
            } else if self.lamports[context.maker] + self.rent > u64::MAX {
                Some(EscrowError::Program(EscrowErrorCode::FailedRefundClosure))
            } else {
                None
            },
        }
    }

    /// The escrow after `refund_offer` has succeeded: the holding account has
    /// paid the maker and is closed, the offer is gone, and the maker has the
    /// cost of their storage back.
    pub open spec fn after_refund_offer(self, context: RefundOffer) -> EscrowView {
        let (address, offer) = self.offer_at(context.maker, context.id)->0;
        let maker_a = wallet_of(context.maker, offer.token_mint_a);
        let holding = holding_of(address, offer.token_mint_a);
        EscrowView {
            offers: self.offers.remove(address),
            resolved: self.resolved.insert(address),
            tokens: transferred(
                self.tokens,
                holding,
                maker_a,
                offer.token_a_offered_amount,
            ).remove(holding),
            lamports: self.lamports.insert(
                context.maker,
                (self.lamports[context.maker] + self.rent) as u64,
            ),
            ..self
        }
    }
}

/// An escrow: the offers that are pending, the token accounts, and what the
/// users have to pay for storage with.
#[derive(Debug)]
pub struct Escrow {
    program_id: Address,
    rent: u64,
    offers: Table<Address, Offer>,
    resolved: Table<Address, bool>,
    tokens: Ledger,
    lamports: Table<Address, u64>,
}

impl View for Escrow {
    type V = EscrowView;

    closed spec fn view(&self) -> EscrowView {
        EscrowView {
            program_id: self.program_id,
            rent: self.rent,
            offers: self.offers@,
            resolved: self.resolved@.dom(),
            tokens: self.tokens@,
            lamports: Map::new(
                |owner: Address| true,
                |owner: Address|
                    if self.lamports@.dom().contains(owner) {
                        self.lamports@[owner]
                    } else {
                        0
                    },
            ),
        }
    }
}

impl Escrow {
    /// The tables are in order and the escrow is valid.
    pub closed spec fn wf(&self) -> bool {
        &&& self.offers.wf()
        &&& self.resolved.wf()
        &&& self.tokens.wf()
        &&& self.lamports.wf()
        &&& self@.valid()
    }

    /// What is valid of an escrow is valid of its view.
    pub proof fn lemma_wf_valid(&self)
        requires
            self.wf(),
        ensures
            self@.valid(),
    {
    }

    /// An escrow of the program `program_id`, in which the storage of an
    /// offer and its holding account costs `rent`: without offers or
    /// accounts, and nobody has anything to pay for storage with.
    pub fn new(program_id: Address, rent: u64) -> (r: Escrow)
        ensures
            r.wf(),
            r@ == (EscrowView {
                program_id,
                rent,
                offers: Map::<Address, Offer>::empty(),
                resolved: Set::<Address>::empty(),
                tokens: Map::<TokenKey, u64>::empty(),
                lamports: Map::new(|owner: Address| true, |owner: Address| 0u64),
            }),
    {
        let r = Escrow {
            program_id,
            rent,
            offers: Table::new(),
            resolved: Table::new(),
            tokens: Ledger::new(),
            lamports: Table::new(),
        };
        assert(r@.lamports =~= Map::new(|owner: Address| true, |owner: Address| 0u64));
        assert(r@.resolved =~= Set::<Address>::empty());
        r
    }

    /// The program for which the addresses are derived.
    pub fn program_id(&self) -> (r: Address)
        ensures
            r == self@.program_id,
    {
        self.program_id
    }

    /// What the storage of one offer and its holding account costs.
    pub fn rent(&self) -> (r: u64)
        ensures
            r == self@.rent,
    {
        self.rent
    }

    /// The token accounts, to read balances from.
    pub fn tokens(&self) -> (r: &Ledger)
        requires
            self.wf(),
        ensures
            r.wf(),
            r@ == self@.tokens,
    {
        &self.tokens
    }

    /// What the user `owner` has to pay for storage with.
    pub fn lamports(&self, owner: &Address) -> (r: u64)
        requires
            self.wf(),
        ensures
            r == self@.lamports[*owner],
    {
        match self.lamports.get(owner) {
            Some(held) => held,
            None => 0,
        }
    }

    /// Gives the user `owner` `amount` more to pay for storage with. Nothing
    /// changes where that is more than can be counted.
    pub fn fund_lamports(&mut self, owner: &Address, amount: u64) -> (r: Result<(), TokenError>)
        requires
            old(self).wf(),
        ensures
            final(self).wf(),
            match r {
                Ok(()) => {
                    &&& old(self)@.lamports[*owner] + amount <= u64::MAX
                    &&& final(self)@ == (EscrowView {
                        lamports: old(self)@.lamports.insert(
                            *owner,
                            (old(self)@.lamports[*owner] + amount) as u64,
                        ),
                        ..old(self)@
                    })
                },
                Err(e) => {
                    &&& old(self)@.lamports[*owner] + amount > u64::MAX
                    &&& final(self)@ == old(self)@
                    &&& e == TokenError::Overflow
                },
            },
    {
        match self.lamports(owner).checked_add(amount) {
            Some(sum) => {
                self.lamports.insert(*owner, sum);
                proof {
                    assert(self@.lamports =~= old(self)@.lamports.insert(*owner, sum));
                    assert forall|address: Address| #[trigger]
                        self@.offers.dom().contains(address) implies self@.backed(address) by {
                        assert(old(self)@.backed(address));
                    }
                    assert forall|k: TokenKey| #[trigger]
                        self@.tokens.dom().contains(k) implies self@.owned(k) by {
                        assert(old(self)@.owned(k));
                    }
                }
                Ok(())
            },
            None => Err(TokenError::Overflow),
        }
    }

    /// The offer recorded for `maker` and `id`, if there is one.
    pub fn offer(&self, maker: &Address, id: u64) -> (r: Option<Offer>)
        requires
            self.wf(),
        ensures
            r == match self@.offer_at(*maker, id) {
                Some((_, offer)) => Some(offer),
                None => None,
            },
    {
        match self.locate(maker, id) {
            Some((_, offer)) => Some(offer),
            None => None,
        }
    }

    /// Credits the account of the user `owner` for `mint` with `amount` new
    /// tokens, opening it if needed. Nothing changes where the account cannot
    /// hold that much more.
    pub fn fund(&mut self, owner: &Address, mint: &Address, amount: u64) -> (r: Result<
        (),
        TokenError,
    >)
        requires
            old(self).wf(),
        ensures
            final(self).wf(),
            final(self)@.program_id == old(self)@.program_id,
            final(self)@.rent == old(self)@.rent,
            final(self)@.offers == old(self)@.offers,
            final(self)@.resolved == old(self)@.resolved,
            final(self)@.lamports == old(self)@.lamports,
            match r {
                Ok(()) => {
                    &&& balance(old(self)@.tokens, wallet_of(*owner, *mint)) + amount <= u64::MAX
                    &&& final(self)@.tokens == old(self)@.tokens.insert(
                        wallet_of(*owner, *mint),
                        (balance(old(self)@.tokens, wallet_of(*owner, *mint)) + amount) as u64,
                    )
                },
                Err(e) => {
                    &&& balance(old(self)@.tokens, wallet_of(*owner, *mint)) + amount > u64::MAX
                    &&& final(self)@.tokens == old(self)@.tokens
                    &&& e == TokenError::Overflow
                },
            },
    {
        let r = self.tokens.mint_to(TokenKey::wallet(*owner, *mint), amount);
        proof {
            let key = wallet_of(*owner, *mint);
            assert forall|address: Address| #[trigger]
                self@.offers.dom().contains(address) implies self@.backed(address) by {
                assert(old(self)@.backed(address));
            }
            assert forall|k: TokenKey| #[trigger]
                self@.tokens.dom().contains(k) implies self@.owned(k) by {
                if k != key {
                    assert(old(self)@.tokens.dom().contains(k));
                    assert(old(self)@.owned(k));
                }
            }
        }
        r
    }

    /// Finds the offer of `maker` and `id` with the address it is kept under.
    /// What the offer records authorizes spending from its holding account.
    fn locate(&self, maker: &Address, id: u64) -> (r: Option<(Address, Offer)>)
        requires
            self.wf(),
        ensures
            r == self@.offer_at(*maker, id),
            r matches Some((address, offer)) ==> offer.authority().address(self@.program_id)
                == Some(address),
    {
        let (address, _) = match Offer::seeds(maker, id).derive(&self.program_id) {
            Some(found) => found,
            None => {
                return None;
            },
        };
        match self.offers.get(&address) {
            None => None,
            Some(offer) => {
                if offer.maker.same(maker) && offer.id == id {
                    assert(self@.backed(address));
                    Some((address, offer))
                } else {
                    None
                }
            },
        }
    }
}

/// Makes the offer `id` of the maker: `token_a_offered_amount` of asset kind
/// A leaves the maker's account for a new holding account under the address
/// derived for the maker and the id, the offer is recorded under that
/// address, and the maker pays for the storage of the two.
pub fn make_offer(
    escrow: &mut Escrow,
    context: &MakeOffer,
    id: u64,
    token_a_offered_amount: u64,
    token_b_wanted_amount: u64,
) -> (r: Result<(), EscrowError>)
    requires
        old(escrow).wf(),
    ensures
        final(escrow).wf(),
        match r {
            Ok(()) => {
                &&& old(escrow)@.make_offer_failure(
                    *context,
                    id,
                    token_a_offered_amount,
                    token_b_wanted_amount,
                ) is None
                &&& final(escrow)@ == old(escrow)@.after_make_offer(
                    *context,
                    id,
                    token_a_offered_amount,
                    token_b_wanted_amount,
                )
            },
            Err(e) => {
                &&& old(escrow)@.make_offer_failure(
                    *context,
                    id,
                    token_a_offered_amount,
                    token_b_wanted_amount,
                ) == Some(e)
                &&& final(escrow)@ == old(escrow)@
            },
        },
{
    let (address, bump) = match Offer::seeds(&context.maker, id).derive(&escrow.program_id) {
        Some(found) => found,
        None => {
            return Err(EscrowError::InvalidAuthority);
        },
    };
    if escrow.offers.contains_key(&address) {
        return Err(EscrowError::OfferAlreadyExists);
    }
    if escrow.resolved.contains_key(&address) {
        return Err(EscrowError::OfferResolved);
    }
    let funds = escrow.lamports(&context.maker);
    if funds < escrow.rent {
        return Err(EscrowError::RentUnpaid);
    }
    let offer = match save_offer_details(
        context,
        id,
        token_a_offered_amount,
        token_b_wanted_amount,
        bump,
    ) {
        Ok(offer) => offer,
        Err(code) => {
            return Err(EscrowError::Program(code));
        },
    };
    let holding = TokenKey::holding(address, context.token_mint_a);
    let ghost wallet = wallet_of(context.maker, context.token_mint_a);
    let mut staged = escrow.tokens.snapshot();
    proof {
        if staged@.dom().contains(holding) {
            assert(old(escrow)@.owned(holding));
        }
    }
    match staged.open(holding) {
        Ok(()) => {},
        Err(_) => {
            return Err(EscrowError::OfferAlreadyExists);
        },
    }
    match send_offered_tokens_to_vault(&mut staged, context, &address, token_a_offered_amount) {
        Ok(()) => {},
        Err(code) => {
            return Err(EscrowError::Program(code));
        },
    }
    escrow.tokens = staged;
    escrow.offers.insert(address, offer);
    escrow.lamports.insert(context.maker, funds - escrow.rent);
    proof {
        let after = old(escrow)@.after_make_offer(
            *context,
            id,
            token_a_offered_amount,
            token_b_wanted_amount,
        );
        assert(escrow@.tokens =~= after.tokens);
        assert(escrow@.lamports =~= after.lamports);
        assert forall|other: Address| #[trigger]
            escrow@.offers.dom().contains(other) implies escrow@.backed(other) by {
            if other != address {
                assert(old(escrow)@.backed(other));
            }
        }
        assert forall|key: TokenKey| #[trigger]
            escrow@.tokens.dom().contains(key) implies escrow@.owned(key) by {
            if key != holding && key != wallet {
                assert(old(escrow)@.owned(key));
            }
        }
    }
    Ok(())
}

/// Takes the offer `id` of the maker for the taker: the taker pays the maker
/// what the offer wants, receives what the offer holds, and the offer and
/// its holding account cease to exist; what their storage cost goes back to
/// the maker.
pub fn take_offer(escrow: &mut Escrow, context: &TakeOffer) -> (r: Result<(), EscrowError>)
    requires
        old(escrow).wf(),
    ensures
        final(escrow).wf(),
        match r {
            Ok(()) => {
                &&& old(escrow)@.take_offer_failure(*context) is None
                &&& final(escrow)@ == old(escrow)@.after_take_offer(*context)
            },
            Err(e) => {
                &&& old(escrow)@.take_offer_failure(*context) == Some(e)
                &&& final(escrow)@ == old(escrow)@
            },
        },
{
    let (address, offer) = match escrow.locate(&context.maker, context.id) {
        Some(found) => found,
        None => {
            return Err(EscrowError::OfferNotFound);
        },
    };
    proof {
        assert(old(escrow)@.backed(address));
    }
    let mut staged = escrow.tokens.snapshot();
    staged.open_if_needed(TokenKey::wallet(context.maker, offer.token_mint_b));
    staged.open_if_needed(TokenKey::wallet(context.taker, offer.token_mint_a));
    match send_wanted_tokens_to_maker(&mut staged, context, &offer) {
        Ok(()) => {},
        Err(code) => {
            return Err(EscrowError::Program(code));
        },
    }
    match withdraw_tokens_from_vault_to_taker(
        &mut staged,
        context,
        &offer,
        &address,
        &escrow.program_id,
    ) {
        Ok(()) => {},
        Err(code) => {
            return Err(EscrowError::Program(code));
        },
    }
    let funds = match escrow.lamports(&context.maker).checked_add(escrow.rent) {
        Some(funds) => funds,
        None => {
            return Err(EscrowError::Program(EscrowErrorCode::FailedVaultClosure));
        },
    };
    escrow.tokens = staged;
    escrow.offers.remove(&address);
    escrow.resolved.insert(address, true);
    escrow.lamports.insert(context.maker, funds);
    proof {
        assert(escrow@.resolved =~= old(escrow)@.resolved.insert(address));
        let holding = holding_of(address, offer.token_mint_a);
        assert(escrow@.lamports =~= old(escrow)@.after_take_offer(*context).lamports);
        assert forall|other: Address| #[trigger]
            escrow@.offers.dom().contains(other) implies escrow@.backed(other) by {
            assert(old(escrow)@.backed(other));
        }
        assert forall|key: TokenKey| #[trigger]
            escrow@.tokens.dom().contains(key) implies escrow@.owned(key) by {
            if key.holder is Authority {
                assert(old(escrow)@.tokens.dom().contains(key));
                assert(old(escrow)@.owned(key));
            }
        }
    }
    Ok(())
}

/// Refunds the offer `id` to its maker: what the offer holds goes back to
/// the maker, and the offer and its holding account cease to exist; what
/// their storage cost goes back to the maker too. Only the maker's own
/// offers are found.
pub fn refund_offer(escrow: &mut Escrow, context: &RefundOffer) -> (r: Result<(), EscrowError>)
    requires
        old(escrow).wf(),
    ensures
        final(escrow).wf(),
        match r {
            Ok(()) => {
                &&& old(escrow)@.refund_offer_failure(*context) is None
                &&& final(escrow)@ == old(escrow)@.after_refund_offer(*context)
            },
            Err(e) => {
                &&& old(escrow)@.refund_offer_failure(*context) == Some(e)
                &&& final(escrow)@ == old(escrow)@
            },
        },
{
    let (address, offer) = match escrow.locate(&context.maker, context.id) {
        Some(found) => found,
        None => {
            return Err(EscrowError::OfferNotFound);
        },
    };
    proof {
        assert(old(escrow)@.backed(address));
    }
    let mut staged = escrow.tokens.snapshot();
    match refund_tokens_to_maker(&mut staged, context, &offer, &address, &escrow.program_id) {
        Ok(()) => {},
        Err(code) => {
            return Err(EscrowError::Program(code));
        },
    }
    let funds = match escrow.lamports(&context.maker).checked_add(escrow.rent) {
        Some(funds) => funds,
        None => {
            return Err(EscrowError::Program(EscrowErrorCode::FailedRefundClosure));
        },
    };
    escrow.tokens = staged;
    escrow.offers.remove(&address);
    escrow.resolved.insert(address, true);
    escrow.lamports.insert(context.maker, funds);
    proof {
        assert(escrow@.resolved =~= old(escrow)@.resolved.insert(address));
        assert(escrow@.lamports =~= old(escrow)@.after_refund_offer(*context).lamports);
        assert forall|other: Address| #[trigger]
            escrow@.offers.dom().contains(other) implies escrow@.backed(other) by {
            assert(old(escrow)@.backed(other));
        }
        assert forall|key: TokenKey| #[trigger]
            escrow@.tokens.dom().contains(key) implies escrow@.owned(key) by {
            if key.holder is Authority {
                assert(old(escrow)@.tokens.dom().contains(key));
                assert(old(escrow)@.owned(key));
            }
        }
    }
    Ok(())
}

} // verus!
