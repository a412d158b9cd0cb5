use token_custody::address::Address;
use token_custody::escrow::errors::{EscrowError, EscrowErrorCode};
use token_custody::escrow::make_offer::{
    save_offer_details, send_offered_tokens_to_vault, MakeOffer,
};
use token_custody::escrow::refund_offer::{refund_tokens_to_maker, RefundOffer};
use token_custody::escrow::state::Offer;
use token_custody::escrow::take_offer::{
    send_wanted_tokens_to_maker, withdraw_tokens_from_vault_to_taker, TakeOffer,
};
use token_custody::escrow::{make_offer, refund_offer, take_offer, Escrow};
use token_custody::token::{Ledger, TokenError, TokenKey};

fn address(byte: u8) -> Address {
    Address::new_from_array([byte; 32])
}

fn program() -> Address {
    address(7)
}

fn maker() -> Address {
    address(1)
}

fn taker() -> Address {
    address(2)
}

fn mint_a() -> Address {
    address(10)
}

fn mint_b() -> Address {
    address(11)
}

fn offer_context() -> MakeOffer {
    MakeOffer { maker: maker(), token_mint_a: mint_a(), token_mint_b: mint_b() }
}

fn wallet(escrow: &Escrow, owner: Address, mint: Address) -> Option<u64> {
    escrow.tokens().amount(&TokenKey::wallet(owner, mint))
}

fn holding(escrow: &Escrow, maker: Address, id: u64, mint: Address) -> Option<u64> {
    let (vault, _) = Offer::seeds(&maker, id).derive(&escrow.program_id()).unwrap();
    escrow.tokens().amount(&TokenKey::holding(vault, mint))
}

fn funded() -> Escrow {
    let mut escrow = Escrow::new(program(), 0);
    escrow.fund(&maker(), &mint_a(), 250).unwrap();
    escrow.fund(&taker(), &mint_b(), 80).unwrap();
    escrow
}

#[test]
fn a_new_escrow_is_empty() {
    let escrow = Escrow::new(program(), 0);
    assert_eq!(escrow.program_id(), program());
    assert_eq!(escrow.rent(), 0);
    assert_eq!(escrow.lamports(&maker()), 0);
    assert_eq!(escrow.offer(&maker(), 1), None);
    assert_eq!(wallet(&escrow, maker(), mint_a()), None);
}

#[test]
fn funding_credits_a_wallet() {
    let mut escrow = Escrow::new(program(), 0);
    assert_eq!(escrow.fund(&maker(), &mint_a(), 100), Ok(()));
    assert_eq!(escrow.fund(&maker(), &mint_a(), 50), Ok(()));
    assert_eq!(wallet(&escrow, maker(), mint_a()), Some(150));
    assert_eq!(escrow.fund(&maker(), &mint_a(), u64::MAX), Err(TokenError::Overflow));
    assert_eq!(wallet(&escrow, maker(), mint_a()), Some(150));
}

#[test]
fn an_offer_made_is_recorded_and_backed() {
    let mut escrow = funded();
    assert_eq!(make_offer(&mut escrow, &offer_context(), 1, 100, 50), Ok(()));
    let (_, bump) = Offer::seeds(&maker(), 1).derive(&program()).unwrap();
    assert_eq!(
        escrow.offer(&maker(), 1),
        Some(Offer {
            id: 1,
            maker: maker(),
            token_mint_a: mint_a(),
            token_mint_b: mint_b(),
            token_a_offered_amount: 100,
            token_b_wanted_amount: 50,
            bump,
        })
    );
    assert_eq!(holding(&escrow, maker(), 1, mint_a()), Some(100));
    assert_eq!(wallet(&escrow, maker(), mint_a()), Some(150));
    assert_eq!(wallet(&escrow, taker(), mint_b()), Some(80));
    assert_eq!(escrow.offer(&maker(), 2), None);
    assert_eq!(escrow.offer(&taker(), 1), None);
}

#[test]
fn an_offer_is_taken_in_a_swap() {
    let mut escrow = funded();
    make_offer(&mut escrow, &offer_context(), 1, 100, 50).unwrap();
    let take = TakeOffer { taker: taker(), maker: maker(), id: 1 };
    assert_eq!(take_offer(&mut escrow, &take), Ok(()));
    assert_eq!(wallet(&escrow, maker(), mint_b()), Some(50));
    assert_eq!(wallet(&escrow, taker(), mint_a()), Some(100));
    assert_eq!(wallet(&escrow, taker(), mint_b()), Some(30));
    assert_eq!(wallet(&escrow, maker(), mint_a()), Some(150));
    assert_eq!(escrow.offer(&maker(), 1), None);
    assert_eq!(holding(&escrow, maker(), 1, mint_a()), None);
}

#[test]
fn an_offer_is_refunded_to_its_maker() {
    let mut escrow = funded();
    make_offer(&mut escrow, &offer_context(), 2, 100, 50).unwrap();
    assert_eq!(wallet(&escrow, maker(), mint_a()), Some(150));
    assert_eq!(refund_offer(&mut escrow, &RefundOffer { maker: maker(), id: 2 }), Ok(()));
    assert_eq!(wallet(&escrow, maker(), mint_a()), Some(250));
    assert_eq!(escrow.offer(&maker(), 2), None);
    assert_eq!(holding(&escrow, maker(), 2, mint_a()), None);
    assert_eq!(wallet(&escrow, taker(), mint_b()), Some(80));
    assert_eq!(wallet(&escrow, maker(), mint_b()), None);
}

#[test]
fn offer_then_take_and_offer_then_refund() {
    let mut escrow = Escrow::new(program(), 0);
    escrow.fund(&maker(), &mint_a(), 200).unwrap();
    escrow.fund(&taker(), &mint_b(), 50).unwrap();
    make_offer(&mut escrow, &offer_context(), 1, 100, 50).unwrap();
    assert_eq!(holding(&escrow, maker(), 1, mint_a()), Some(100));
    take_offer(&mut escrow, &TakeOffer { taker: taker(), maker: maker(), id: 1 }).unwrap();
    assert_eq!(wallet(&escrow, maker(), mint_b()), Some(50));
    assert_eq!(wallet(&escrow, taker(), mint_a()), Some(100));
    assert_eq!(escrow.offer(&maker(), 1), None);
    make_offer(&mut escrow, &offer_context(), 2, 100, 50).unwrap();
    assert_eq!(wallet(&escrow, maker(), mint_a()), Some(0));
    refund_offer(&mut escrow, &RefundOffer { maker: maker(), id: 2 }).unwrap();
    assert_eq!(wallet(&escrow, maker(), mint_a()), Some(100));
    assert_eq!(escrow.offer(&maker(), 2), None);
    assert_eq!(wallet(&escrow, maker(), mint_b()), Some(50));
    assert_eq!(wallet(&escrow, taker(), mint_b()), Some(0));
}

#[test]
fn a_resolved_offer_cannot_be_resolved_again() {
    let mut escrow = funded();
    make_offer(&mut escrow, &offer_context(), 1, 100, 50).unwrap();
    make_offer(&mut escrow, &offer_context(), 2, 100, 20).unwrap();
    let take = TakeOffer { taker: taker(), maker: maker(), id: 1 };
    take_offer(&mut escrow, &take).unwrap();
    refund_offer(&mut escrow, &RefundOffer { maker: maker(), id: 2 }).unwrap();
    for id in [1, 2] {
        assert_eq!(
            take_offer(&mut escrow, &TakeOffer { taker: taker(), maker: maker(), id }),
            Err(EscrowError::OfferNotFound)
        );
        assert_eq!(
            refund_offer(&mut escrow, &RefundOffer { maker: maker(), id }),
            Err(EscrowError::OfferNotFound)
        );
    }
    assert_eq!(wallet(&escrow, maker(), mint_a()), Some(150));
    assert_eq!(wallet(&escrow, maker(), mint_b()), Some(50));
    assert_eq!(wallet(&escrow, taker(), mint_a()), Some(100));
    assert_eq!(wallet(&escrow, taker(), mint_b()), Some(30));
}

#[test]
fn only_the_maker_finds_the_offer_to_refund() {
    let mut escrow = funded();
    make_offer(&mut escrow, &offer_context(), 1, 100, 50).unwrap();
    assert_eq!(
        refund_offer(&mut escrow, &RefundOffer { maker: taker(), id: 1 }),
        Err(EscrowError::OfferNotFound)
    );
    assert_eq!(holding(&escrow, maker(), 1, mint_a()), Some(100));
    assert_eq!(wallet(&escrow, taker(), mint_a()), None);
}

#[test]
fn an_offer_of_nothing_or_for_nothing_is_refused() {
    let mut escrow = funded();
    let invalid = Err(EscrowError::Program(EscrowErrorCode::InvalidAmount));
    assert_eq!(make_offer(&mut escrow, &offer_context(), 1, 0, 50), invalid);
    assert_eq!(make_offer(&mut escrow, &offer_context(), 1, 100, 0), invalid);
    assert_eq!(make_offer(&mut escrow, &offer_context(), 1, 251, 0), invalid);
    let same = MakeOffer { maker: maker(), token_mint_a: mint_a(), token_mint_b: mint_a() };
    assert_eq!(make_offer(&mut escrow, &same, 1, 0, 0), invalid);
    assert_eq!(escrow.offer(&maker(), 1), None);
    assert_eq!(wallet(&escrow, maker(), mint_a()), Some(250));
    assert_eq!(holding(&escrow, maker(), 1, mint_a()), None);
}

#[test]
fn an_offer_beyond_the_makers_balance_is_refused() {
    let mut escrow = funded();
    assert_eq!(
        make_offer(&mut escrow, &offer_context(), 1, 251, 50),
        Err(EscrowError::Program(EscrowErrorCode::InsufficientMakerBalance))
    );
    let poor = MakeOffer { maker: address(3), token_mint_a: mint_a(), token_mint_b: mint_b() };
    assert_eq!(
        make_offer(&mut escrow, &poor, 1, 1, 1),
        Err(EscrowError::Program(EscrowErrorCode::InsufficientMakerBalance))
    );
    assert_eq!(wallet(&escrow, maker(), mint_a()), Some(250));
    assert_eq!(make_offer(&mut escrow, &offer_context(), 1, 250, 50), Ok(()));
}

#[test]
fn an_offer_of_one_asset_kind_for_itself_is_refused() {
    let mut escrow = funded();
    let same = MakeOffer { maker: maker(), token_mint_a: mint_a(), token_mint_b: mint_a() };
    assert_eq!(
        make_offer(&mut escrow, &same, 1, 100, 50),
        Err(EscrowError::Program(EscrowErrorCode::InvalidTokenMint))
    );
    assert_eq!(wallet(&escrow, maker(), mint_a()), Some(250));
}

#[test]
fn an_id_in_use_is_refused() {
    let mut escrow = funded();
    make_offer(&mut escrow, &offer_context(), 1, 100, 50).unwrap();
    assert_eq!(
        make_offer(&mut escrow, &offer_context(), 1, 10, 5),
        Err(EscrowError::OfferAlreadyExists)
    );
    assert_eq!(wallet(&escrow, maker(), mint_a()), Some(150));
    assert_eq!(holding(&escrow, maker(), 1, mint_a()), Some(100));
}

#[test]
fn an_id_is_used_up_once_its_offer_is_resolved() {
    let mut escrow = funded();
    make_offer(&mut escrow, &offer_context(), 1, 100, 50).unwrap();
    make_offer(&mut escrow, &offer_context(), 2, 100, 50).unwrap();
    take_offer(&mut escrow, &TakeOffer { taker: taker(), maker: maker(), id: 1 }).unwrap();
    refund_offer(&mut escrow, &RefundOffer { maker: maker(), id: 2 }).unwrap();
    for id in [1, 2] {
        assert_eq!(
            make_offer(&mut escrow, &offer_context(), id, 10, 5),
            Err(EscrowError::OfferResolved)
        );
        assert_eq!(escrow.offer(&maker(), id), None);
        assert_eq!(holding(&escrow, maker(), id, mint_a()), None);
    }
    assert_eq!(wallet(&escrow, maker(), mint_a()), Some(150));
    assert_eq!(make_offer(&mut escrow, &offer_context(), 3, 10, 5), Ok(()));
    escrow.fund(&taker(), &mint_a(), 0).unwrap();
    escrow.fund(&taker(), &mint_a(), 5).unwrap();
    let other = MakeOffer { maker: taker(), token_mint_a: mint_a(), token_mint_b: mint_b() };
    assert_eq!(make_offer(&mut escrow, &other, 1, 10, 5), Ok(()));
}

#[test]
fn a_taker_without_the_wanted_amount_is_refused() {
    let mut escrow = funded();
    make_offer(&mut escrow, &offer_context(), 1, 100, 81).unwrap();
    let take = TakeOffer { taker: taker(), maker: maker(), id: 1 };
    assert_eq!(
        take_offer(&mut escrow, &take),
        Err(EscrowError::Program(EscrowErrorCode::InsufficientTakerBalance))
    );
    assert_eq!(wallet(&escrow, taker(), mint_b()), Some(80));
    assert_eq!(wallet(&escrow, taker(), mint_a()), None);
    assert_eq!(wallet(&escrow, maker(), mint_b()), None);
    assert_eq!(holding(&escrow, maker(), 1, mint_a()), Some(100));
    assert!(escrow.offer(&maker(), 1).is_some());
}

#[test]
fn a_take_that_the_maker_cannot_receive_moves_nothing() {
    let mut escrow = funded();
    escrow.fund(&maker(), &mint_b(), u64::MAX - 49).unwrap();
    make_offer(&mut escrow, &offer_context(), 1, 100, 50).unwrap();
    let take = TakeOffer { taker: taker(), maker: maker(), id: 1 };
    assert_eq!(
        take_offer(&mut escrow, &take),
        Err(EscrowError::Program(EscrowErrorCode::TokenTransferFailed))
    );
    assert_eq!(wallet(&escrow, taker(), mint_b()), Some(80));
    assert_eq!(wallet(&escrow, maker(), mint_b()), Some(u64::MAX - 49));
    assert_eq!(holding(&escrow, maker(), 1, mint_a()), Some(100));
}

#[test]
fn a_take_that_the_taker_cannot_receive_moves_nothing() {
    let mut escrow = funded();
    escrow.fund(&taker(), &mint_a(), u64::MAX - 99).unwrap();
    make_offer(&mut escrow, &offer_context(), 1, 100, 50).unwrap();
    let take = TakeOffer { taker: taker(), maker: maker(), id: 1 };
    assert_eq!(
        take_offer(&mut escrow, &take),
        Err(EscrowError::Program(EscrowErrorCode::TokenTransferFailed))
    );
    assert_eq!(wallet(&escrow, taker(), mint_b()), Some(80));
    assert_eq!(wallet(&escrow, maker(), mint_b()), None);
    assert_eq!(wallet(&escrow, taker(), mint_a()), Some(u64::MAX - 99));
    assert_eq!(holding(&escrow, maker(), 1, mint_a()), Some(100));
    assert!(escrow.offer(&maker(), 1).is_some());
}

#[test]
fn a_maker_who_takes_the_own_offer_pays_nothing() {
    let mut escrow = funded();
    escrow.fund(&maker(), &mint_b(), 60).unwrap();
    make_offer(&mut escrow, &offer_context(), 1, 100, 50).unwrap();
    let take = TakeOffer { taker: maker(), maker: maker(), id: 1 };
    assert_eq!(take_offer(&mut escrow, &take), Ok(()));
    assert_eq!(wallet(&escrow, maker(), mint_b()), Some(60));
    assert_eq!(wallet(&escrow, maker(), mint_a()), Some(250));
    assert_eq!(escrow.offer(&maker(), 1), None);
}

#[test]
fn a_refund_that_the_maker_cannot_receive_moves_nothing() {
    let mut escrow = funded();
    make_offer(&mut escrow, &offer_context(), 1, 100, 50).unwrap();
    escrow.fund(&maker(), &mint_a(), u64::MAX - 249).unwrap();
    assert_eq!(
        refund_offer(&mut escrow, &RefundOffer { maker: maker(), id: 1 }),
        Err(EscrowError::Program(EscrowErrorCode::FailedRefundTransfer))
    );
    assert_eq!(wallet(&escrow, maker(), mint_a()), Some(u64::MAX - 99));
    assert_eq!(holding(&escrow, maker(), 1, mint_a()), Some(100));
    assert!(escrow.offer(&maker(), 1).is_some());
}

#[test]
fn offers_of_two_makers_stand_apart() {
    let mut escrow = funded();
    escrow.fund(&address(3), &mint_a(), 30).unwrap();
    let other = MakeOffer { maker: address(3), token_mint_a: mint_a(), token_mint_b: mint_b() };
    make_offer(&mut escrow, &offer_context(), 1, 100, 50).unwrap();
    make_offer(&mut escrow, &other, 1, 30, 20).unwrap();
    take_offer(&mut escrow, &TakeOffer { taker: taker(), maker: address(3), id: 1 }).unwrap();
    assert_eq!(wallet(&escrow, taker(), mint_a()), Some(30));
    assert_eq!(wallet(&escrow, address(3), mint_b()), Some(20));
    assert_eq!(holding(&escrow, maker(), 1, mint_a()), Some(100));
    assert_eq!(escrow.offer(&maker(), 1).unwrap().token_b_wanted_amount, 50);
    assert_eq!(escrow.offer(&address(3), 1), None);
}

fn offer_of(amount_a: u64, amount_b: u64, bump: u8) -> Offer {
    Offer {
        id: 1,
        maker: maker(),
        token_mint_a: mint_a(),
        token_mint_b: mint_b(),
        token_a_offered_amount: amount_a,
        token_b_wanted_amount: amount_b,
        bump,
    }
}

#[test]
fn the_offered_tokens_need_their_holding_account() {
    let (vault, _) = Offer::seeds(&maker(), 1).derive(&program()).unwrap();
    let mut ledger = Ledger::new();
    ledger.mint_to(TokenKey::wallet(maker(), mint_a()), 100).unwrap();
    assert_eq!(
        send_offered_tokens_to_vault(&mut ledger, &offer_context(), &vault, 100),
        Err(EscrowErrorCode::TokenTransferFailed)
    );
    ledger.open(TokenKey::holding(vault, mint_a())).unwrap();
    assert_eq!(
        send_offered_tokens_to_vault(&mut ledger, &offer_context(), &vault, 0),
        Err(EscrowErrorCode::InvalidAmount)
    );
    assert_eq!(
        send_offered_tokens_to_vault(&mut ledger, &offer_context(), &vault, 101),
        Err(EscrowErrorCode::InsufficientMakerBalance)
    );
    assert_eq!(send_offered_tokens_to_vault(&mut ledger, &offer_context(), &vault, 60), Ok(()));
    assert_eq!(ledger.amount(&TokenKey::holding(vault, mint_a())), Some(60));
    assert_eq!(ledger.amount(&TokenKey::wallet(maker(), mint_a())), Some(40));
}

#[test]
fn the_details_of_an_offer_are_saved_as_given() {
    assert_eq!(save_offer_details(&offer_context(), 1, 100, 50, 254), Ok(offer_of(100, 50, 254)));
    assert_eq!(
        save_offer_details(&offer_context(), 1, 100, 0, 254),
        Err(EscrowErrorCode::InvalidAmount)
    );
}

#[test]
fn the_wanted_tokens_go_from_taker_to_maker() {
    let take = TakeOffer { taker: taker(), maker: maker(), id: 1 };
    let mut ledger = Ledger::new();
    ledger.mint_to(TokenKey::wallet(taker(), mint_b()), 50).unwrap();
    assert_eq!(
        send_wanted_tokens_to_maker(&mut ledger, &take, &offer_of(100, 51, 0)),
        Err(EscrowErrorCode::InsufficientTakerBalance)
    );
    assert_eq!(
        send_wanted_tokens_to_maker(&mut ledger, &take, &offer_of(100, 50, 0)),
        Err(EscrowErrorCode::TokenTransferFailed)
    );
    let mut same = offer_of(100, 50, 0);
    same.token_mint_a = mint_b();
    assert_eq!(
        send_wanted_tokens_to_maker(&mut ledger, &take, &same),
        Err(EscrowErrorCode::InvalidTokenMint)
    );
    ledger.open(TokenKey::wallet(maker(), mint_b())).unwrap();
    assert_eq!(send_wanted_tokens_to_maker(&mut ledger, &take, &offer_of(100, 50, 0)), Ok(()));
    assert_eq!(ledger.amount(&TokenKey::wallet(maker(), mint_b())), Some(50));
    assert_eq!(ledger.amount(&TokenKey::wallet(taker(), mint_b())), Some(0));
}

#[test]
fn the_holding_account_pays_out_on_the_offers_own_bump_only() {
    let (vault, bump) = Offer::seeds(&maker(), 1).derive(&program()).unwrap();
    let take = TakeOffer { taker: taker(), maker: maker(), id: 1 };
    let mut ledger = Ledger::new();
    ledger.mint_to(TokenKey::holding(vault, mint_a()), 100).unwrap();
    ledger.open(TokenKey::wallet(taker(), mint_a())).unwrap();
    let wrong = if bump == 255 { 254 } else { bump + 1 };
    assert_eq!(
        withdraw_tokens_from_vault_to_taker(
            &mut ledger,
            &take,
            &offer_of(100, 50, wrong),
            &vault,
            &program()
        ),
        Err(EscrowErrorCode::TokenTransferFailed)
    );
    assert_eq!(
        withdraw_tokens_from_vault_to_taker(
            &mut ledger,
            &take,
            &offer_of(100, 50, bump),
            &vault,
            &address(8)
        ),
        Err(EscrowErrorCode::TokenTransferFailed)
    );
    assert_eq!(
        withdraw_tokens_from_vault_to_taker(
            &mut ledger,
            &take,
            &offer_of(60, 50, bump),
            &vault,
            &program()
        ),
        Err(EscrowErrorCode::FailedVaultClosure)
    );
    assert_eq!(ledger.amount(&TokenKey::holding(vault, mint_a())), Some(100));
    assert_eq!(ledger.amount(&TokenKey::wallet(taker(), mint_a())), Some(0));
    assert_eq!(
        withdraw_tokens_from_vault_to_taker(
            &mut ledger,
            &take,
            &offer_of(100, 50, bump),
            &vault,
            &program()
        ),
        Ok(())
    );
    assert_eq!(ledger.amount(&TokenKey::holding(vault, mint_a())), None);
    assert_eq!(ledger.amount(&TokenKey::wallet(taker(), mint_a())), Some(100));
}

#[test]
fn the_refund_returns_all_that_the_holding_account_holds() {
    let (vault, bump) = Offer::seeds(&maker(), 1).derive(&program()).unwrap();
    let refund = RefundOffer { maker: maker(), id: 1 };
    let mut ledger = Ledger::new();
    ledger.mint_to(TokenKey::holding(vault, mint_a()), 130).unwrap();
    assert_eq!(
        refund_tokens_to_maker(&mut ledger, &refund, &offer_of(100, 50, bump), &vault, &program()),
        Err(EscrowErrorCode::FailedRefundTransfer)
    );
    ledger.mint_to(TokenKey::wallet(maker(), mint_a()), 1).unwrap();
    let wrong = if bump == 255 { 254 } else { bump + 1 };
    assert_eq!(
        refund_tokens_to_maker(&mut ledger, &refund, &offer_of(100, 50, wrong), &vault, &program()),
        Err(EscrowErrorCode::FailedRefundTransfer)
    );
    assert_eq!(ledger.amount(&TokenKey::holding(vault, mint_a())), Some(130));
    assert_eq!(
        refund_tokens_to_maker(&mut ledger, &refund, &offer_of(100, 50, bump), &vault, &program()),
        Ok(())
    );
    assert_eq!(ledger.amount(&TokenKey::holding(vault, mint_a())), None);
    assert_eq!(ledger.amount(&TokenKey::wallet(maker(), mint_a())), Some(131));
}

#[test]
fn the_failures_have_their_messages() {
    assert_eq!(EscrowErrorCode::InvalidAmount.message(), "Amount must be greater than zero");
    assert_eq!(
        EscrowErrorCode::InsufficientMakerBalance.message(),
        "Insufficient token balance in maker's account"
    );
    assert_eq!(EscrowErrorCode::FailedRefundClosure.message(), "Failed to close vault during refund");
}

fn charging(rent: u64) -> Escrow {
    let mut escrow = Escrow::new(program(), rent);
    escrow.fund(&maker(), &mint_a(), 250).unwrap();
    escrow.fund(&taker(), &mint_b(), 80).unwrap();
    escrow
}

#[test]
fn lamports_are_counted_for_each_user() {
    let mut escrow = Escrow::new(program(), 5);
    assert_eq!(escrow.rent(), 5);
    assert_eq!(escrow.fund_lamports(&maker(), 7), Ok(()));
    assert_eq!(escrow.fund_lamports(&maker(), 3), Ok(()));
    assert_eq!(escrow.lamports(&maker()), 10);
    assert_eq!(escrow.lamports(&taker()), 0);
    assert_eq!(escrow.fund_lamports(&maker(), u64::MAX - 9), Err(TokenError::Overflow));
    assert_eq!(escrow.lamports(&maker()), 10);
    assert_eq!(escrow.fund_lamports(&maker(), u64::MAX - 10), Ok(()));
    assert_eq!(escrow.lamports(&maker()), u64::MAX);
}

#[test]
fn an_offer_needs_its_storage_paid() {
    let mut escrow = charging(5);
    escrow.fund_lamports(&maker(), 4).unwrap();
    assert_eq!(make_offer(&mut escrow, &offer_context(), 1, 100, 50), Err(EscrowError::RentUnpaid));
    assert_eq!(escrow.lamports(&maker()), 4);
    assert_eq!(wallet(&escrow, maker(), mint_a()), Some(250));
    assert_eq!(escrow.offer(&maker(), 1), None);
    escrow.fund_lamports(&maker(), 1).unwrap();
    assert_eq!(make_offer(&mut escrow, &offer_context(), 1, 100, 50), Ok(()));
    assert_eq!(escrow.lamports(&maker()), 0);
    assert_eq!(holding(&escrow, maker(), 1, mint_a()), Some(100));
}

#[test]
fn a_failed_offer_costs_no_storage() {
    let mut escrow = charging(5);
    escrow.fund_lamports(&maker(), 9).unwrap();
    assert_eq!(
        make_offer(&mut escrow, &offer_context(), 1, 251, 50),
        Err(EscrowError::Program(EscrowErrorCode::InsufficientMakerBalance))
    );
    assert_eq!(
        make_offer(&mut escrow, &offer_context(), 1, 100, 0),
        Err(EscrowError::Program(EscrowErrorCode::InvalidAmount))
    );
    assert_eq!(escrow.lamports(&maker()), 9);
}

#[test]
fn the_storage_cost_returns_to_the_maker_when_the_offer_is_taken() {
    let mut escrow = charging(5);
    escrow.fund_lamports(&maker(), 7).unwrap();
    escrow.fund_lamports(&taker(), 1).unwrap();
    make_offer(&mut escrow, &offer_context(), 1, 100, 50).unwrap();
    assert_eq!(escrow.lamports(&maker()), 2);
    take_offer(&mut escrow, &TakeOffer { taker: taker(), maker: maker(), id: 1 }).unwrap();
    assert_eq!(escrow.lamports(&maker()), 7);
    assert_eq!(escrow.lamports(&taker()), 1);
}

#[test]
fn the_storage_cost_returns_to_the_maker_when_the_offer_is_refunded() {
    let mut escrow = charging(5);
    escrow.fund_lamports(&maker(), 12).unwrap();
    make_offer(&mut escrow, &offer_context(), 1, 100, 50).unwrap();
    make_offer(&mut escrow, &offer_context(), 2, 100, 50).unwrap();
    assert_eq!(escrow.lamports(&maker()), 2);
    refund_offer(&mut escrow, &RefundOffer { maker: maker(), id: 2 }).unwrap();
    assert_eq!(escrow.lamports(&maker()), 7);
    refund_offer(&mut escrow, &RefundOffer { maker: maker(), id: 1 }).unwrap();
    assert_eq!(escrow.lamports(&maker()), 12);
    assert_eq!(wallet(&escrow, maker(), mint_a()), Some(250));
}

#[test]
fn a_take_whose_storage_cost_cannot_return_moves_nothing() {
    let mut escrow = charging(5);
    escrow.fund_lamports(&maker(), 5).unwrap();
    make_offer(&mut escrow, &offer_context(), 1, 100, 50).unwrap();
    escrow.fund_lamports(&maker(), u64::MAX - 4).unwrap();
    assert_eq!(
        take_offer(&mut escrow, &TakeOffer { taker: taker(), maker: maker(), id: 1 }),
        Err(EscrowError::Program(EscrowErrorCode::FailedVaultClosure))
    );
    assert_eq!(escrow.lamports(&maker()), u64::MAX - 4);
    assert_eq!(wallet(&escrow, taker(), mint_b()), Some(80));
    assert_eq!(wallet(&escrow, taker(), mint_a()), None);
    assert_eq!(wallet(&escrow, maker(), mint_b()), None);
    assert_eq!(holding(&escrow, maker(), 1, mint_a()), Some(100));
    assert!(escrow.offer(&maker(), 1).is_some());
}

#[test]
fn a_refund_whose_storage_cost_cannot_return_moves_nothing() {
    let mut escrow = charging(5);
    escrow.fund_lamports(&maker(), 5).unwrap();
    make_offer(&mut escrow, &offer_context(), 1, 100, 50).unwrap();
    escrow.fund_lamports(&maker(), u64::MAX - 4).unwrap();
    assert_eq!(
        refund_offer(&mut escrow, &RefundOffer { maker: maker(), id: 1 }),
        Err(EscrowError::Program(EscrowErrorCode::FailedRefundClosure))
    );
    assert_eq!(escrow.lamports(&maker()), u64::MAX - 4);
    assert_eq!(wallet(&escrow, maker(), mint_a()), Some(150));
    assert_eq!(holding(&escrow, maker(), 1, mint_a()), Some(100));
    assert!(escrow.offer(&maker(), 1).is_some());
}
