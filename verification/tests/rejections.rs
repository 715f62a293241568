use nft_marketplace::errors::Error;
use nft_marketplace::ledger::Ledger;

fn meta() -> Vec<u8> {
    b"first".to_vec()
}

// A ledger with class 0 owned by 1 and token 0 minted to 1.
fn base() -> Ledger {
    let mut l = Ledger::new(0);
    assert_eq!(l.create_class(1, meta(), meta(), meta(), meta()), 0);
    assert_eq!(l.mint(1, 0, meta(), meta(), meta(), meta()), Ok(0));
    l
}

#[test]
fn class_not_found_on_mint() {
    let mut l = Ledger::new(0);
    assert_eq!(l.mint(1, 0, meta(), meta(), meta(), meta()), Err(Error::ClassNotFound));
}

#[test]
fn not_owner_on_mint() {
    let mut l = base();
    assert_eq!(l.mint(2, 0, meta(), meta(), meta(), meta()), Err(Error::NotOwner));
}

#[test]
fn class_not_found_on_transfer() {
    let mut l = base();
    assert_eq!(l.transfer(1, 2, 0, 9), Err(Error::ClassNotFound));
}

#[test]
fn nft_not_found_on_transfer() {
    let mut l = base();
    assert_eq!(l.transfer(1, 2, 5, 0), Err(Error::NftNotFound));
}

#[test]
fn not_owner_on_transfer() {
    let mut l = base();
    assert_eq!(l.transfer(2, 3, 0, 0), Err(Error::NotOwner));
}

#[test]
fn nft_not_found_on_burn() {
    let mut l = base();
    assert_eq!(l.burn(1, 5, 0), Err(Error::NftNotFound));
}

#[test]
fn not_owner_on_burn() {
    let mut l = base();
    assert_eq!(l.burn(2, 0, 0), Err(Error::NotOwner));
}

#[test]
fn nft_not_found_on_create_offer() {
    let mut l = base();
    assert_eq!(l.create_offer(1, 0, 5, 100), Err(Error::NftNotFound));
}

#[test]
fn not_owner_on_create_offer() {
    let mut l = base();
    assert_eq!(l.create_offer(2, 0, 0, 100), Err(Error::NotOwner));
}

#[test]
fn amount_too_low_on_create_offer() {
    let mut l = base();
    assert_eq!(l.create_offer(1, 0, 0, 0), Err(Error::AmountTooLow));
}

#[test]
fn offer_not_found_on_buy() {
    let mut l = base();
    assert_eq!(l.buy_offer(2, 0, 0, 100), Err(Error::OfferNotFound));
}

#[test]
fn nft_not_found_on_buy_after_burn() {
    let mut l = base();
    assert_eq!(l.create_offer(1, 0, 0, 100), Ok(()));
    assert_eq!(l.burn(1, 0, 0), Ok(()));
    assert_eq!(l.buy_offer(2, 0, 0, 100), Err(Error::NftNotFound));
}

#[test]
fn nft_buyed_on_stale_offer() {
    let mut l = base();
    assert_eq!(l.create_offer(1, 0, 0, 100), Ok(()));
    assert_eq!(l.transfer(1, 2, 0, 0), Ok(()));
    assert_eq!(l.buy_offer(3, 0, 0, 100), Err(Error::NftBuyed));
}

#[test]
fn amount_too_low_on_buy() {
    let mut l = base();
    assert_eq!(l.create_offer(1, 0, 0, 100), Ok(()));
    l.endow(2, 1_000);
    assert_eq!(l.buy_offer(2, 0, 0, 99), Err(Error::AmountTooLow));
}

#[test]
fn insufficient_funds_on_buy() {
    let mut l = base();
    assert_eq!(l.create_offer(1, 0, 0, 100), Ok(()));
    l.endow(2, 99);
    assert_eq!(l.buy_offer(2, 0, 0, 100), Err(Error::InsufficientFunds));
    assert_eq!(l.balance_of(2), 99);
    assert_eq!(l.nfts(0, 0).unwrap().owner, 1);
    assert!(l.offers(0, 0).is_some());
}

#[test]
fn offer_not_found_on_cancel() {
    let mut l = base();
    assert_eq!(l.cancel_offer(1, 0, 0), Err(Error::OfferNotFound));
}

#[test]
fn not_owner_on_cancel_offer() {
    let mut l = base();
    assert_eq!(l.create_offer(1, 0, 0, 100), Ok(()));
    assert_eq!(l.cancel_offer(2, 0, 0), Err(Error::NotOwner));
}

#[test]
fn class_not_found_on_create_auction() {
    let mut l = base();
    assert_eq!(l.create_auction(1, 9, 0, 100, 10, 20, 10), Err(Error::ClassNotFound));
}

#[test]
fn nft_not_found_on_create_auction() {
    let mut l = base();
    assert_eq!(l.create_auction(1, 0, 5, 100, 10, 20, 10), Err(Error::NftNotFound));
}

#[test]
fn not_owner_on_create_auction() {
    let mut l = base();
    assert_eq!(l.create_auction(2, 0, 0, 100, 10, 20, 10), Err(Error::NotOwner));
}

#[test]
fn amount_too_low_on_create_auction() {
    let mut l = base();
    assert_eq!(l.create_auction(1, 0, 0, 0, 10, 20, 10), Err(Error::AmountTooLow));
}

#[test]
fn under_time_on_create_auction() {
    let mut l = base();
    assert_eq!(l.create_auction(1, 0, 0, 100, 9, 20, 10), Err(Error::UnderTime));
}

#[test]
fn end_time_under_start_time_on_create_auction() {
    let mut l = base();
    assert_eq!(l.create_auction(1, 0, 0, 100, 10, 10, 10), Err(Error::EndTimeUnderStartTime));
}

#[test]
fn auction_not_found_on_bid() {
    let mut l = base();
    assert_eq!(l.bid(2, 0, 0, 100, 10), Err(Error::AuctionNotFound));
}

#[test]
fn time_not_started_on_bid() {
    let mut l = base();
    assert_eq!(l.create_auction(1, 0, 0, 100, 10, 20, 5), Ok(()));
    assert_eq!(l.bid(2, 0, 0, 150, 9), Err(Error::TimeNotStarted));
}

#[test]
fn time_out_on_bid() {
    let mut l = base();
    assert_eq!(l.create_auction(1, 0, 0, 100, 10, 20, 5), Ok(()));
    assert_eq!(l.bid(2, 0, 0, 150, 20), Err(Error::TimeOut));
}

#[test]
fn not_owner_on_bid_by_owner() {
    let mut l = base();
    assert_eq!(l.create_auction(1, 0, 0, 100, 10, 20, 5), Ok(()));
    assert_eq!(l.bid(1, 0, 0, 150, 10), Err(Error::NotOwner));
}

#[test]
fn offer_is_run_on_bid() {
    let mut l = base();
    assert_eq!(l.create_auction(1, 0, 0, 100, 10, 20, 5), Ok(()));
    assert_eq!(l.create_offer(1, 0, 0, 100), Ok(()));
    l.endow(2, 1_000);
    assert_eq!(l.bid(2, 0, 0, 150, 10), Err(Error::OfferIsRun));
}

#[test]
fn amount_too_low_on_bid_below_reserve() {
    let mut l = base();
    assert_eq!(l.create_auction(1, 0, 0, 100, 10, 20, 5), Ok(()));
    l.endow(2, 1_000);
    assert_eq!(l.bid(2, 0, 0, 100, 10), Err(Error::AmountTooLow));
}

#[test]
fn amount_too_low_on_bid_below_high_bid() {
    let mut l = base();
    assert_eq!(l.create_auction(1, 0, 0, 100, 10, 20, 5), Ok(()));
    l.endow(2, 1_000);
    l.endow(3, 1_000);
    assert_eq!(l.bid(2, 0, 0, 200, 10), Ok(()));
    assert_eq!(l.bid(3, 0, 0, 150, 11), Err(Error::AmountTooLow));
}

#[test]
fn nft_buyed_on_stale_auction() {
    let mut l = base();
    assert_eq!(l.create_auction(1, 0, 0, 100, 10, 20, 5), Ok(()));
    assert_eq!(l.transfer(1, 2, 0, 0), Ok(()));
    assert_eq!(l.bid(3, 0, 0, 150, 10), Err(Error::NftBuyed));
}

#[test]
fn insufficient_funds_on_bid() {
    let mut l = base();
    assert_eq!(l.create_auction(1, 0, 0, 100, 10, 20, 5), Ok(()));
    l.endow(2, 149);
    assert_eq!(l.bid(2, 0, 0, 150, 10), Err(Error::InsufficientFunds));
    assert_eq!(l.balance_of(2), 149);
    assert_eq!(l.auctions(0, 0).unwrap().min_amount, 0);
}

#[test]
fn auction_not_found_on_finish() {
    let mut l = base();
    assert_eq!(l.auction_finish(1, 0, 0, 30), Err(Error::AuctionNotFound));
}

#[test]
fn only_owner_on_finish() {
    let mut l = base();
    assert_eq!(l.create_auction(1, 0, 0, 100, 10, 20, 5), Ok(()));
    l.endow(2, 1_000);
    assert_eq!(l.bid(2, 0, 0, 150, 10), Ok(()));
    assert_eq!(l.auction_finish(2, 0, 0, 30), Err(Error::OnlyOwner));
}

#[test]
fn wait_when_auction_finish_on_early_finish() {
    let mut l = base();
    assert_eq!(l.create_auction(1, 0, 0, 100, 10, 20, 5), Ok(()));
    l.endow(2, 1_000);
    assert_eq!(l.bid(2, 0, 0, 150, 10), Ok(()));
    assert_eq!(l.auction_finish(1, 0, 0, 19), Err(Error::WaitWhenAuctionFinish));
}

#[test]
fn nobody_participated_on_finish() {
    let mut l = base();
    assert_eq!(l.create_auction(1, 0, 0, 100, 10, 20, 5), Ok(()));
    assert_eq!(l.auction_finish(1, 0, 0, 30), Err(Error::NoBodyParticipatedWithThisAuction));
}

#[test]
fn auction_not_found_on_cancel() {
    let mut l = base();
    assert_eq!(l.cancel_auction(1, 0, 0), Err(Error::AuctionNotFound));
}

#[test]
fn not_owner_on_cancel_auction() {
    let mut l = base();
    assert_eq!(l.create_auction(1, 0, 0, 100, 10, 20, 5), Ok(()));
    assert_eq!(l.cancel_auction(2, 0, 0), Err(Error::NotOwner));
}
