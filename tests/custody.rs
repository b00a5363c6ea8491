use gamepower_wallet::ledger::Ledger;
use gamepower_wallet::registry::Registry;
use gamepower_wallet::types::{Asset, Error, Event, Order};
use gamepower_wallet::wallet::{ApproveClaims, Module, OnClaimHandler, WalletConfig};

const ALICE: u64 = 1;
const BOB: u64 = 2;
const CAROL: u64 = 3;
const ESCROW: u64 = 1000;
const CUSTODY: u64 = 1001;
const ASSET: Asset = (0, 0);

struct Veto;

impl OnClaimHandler for Veto {
    fn claim(&self, _receiver: u64, _asset: Asset) -> Result<(), Error> {
        Err(Error::NoPermission)
    }
}

fn config(transfer: bool, burn: bool, escrow: bool, claim: bool) -> WalletConfig {
    WalletConfig {
        allow_transfer: transfer,
        allow_burn: burn,
        allow_escrow: escrow,
        allow_claim: claim,
        escrow_account: ESCROW,
        claim_account: CUSTODY,
    }
}

fn wallet_with(cfg: WalletConfig) -> Module {
    let mut w = Module::new(cfg, 500);
    for who in 1..=3u64 {
        w.deposit(who, 1000000).unwrap();
    }
    w.set_block_number(1);
    assert_eq!(w.create_class(ALICE), Ok(0));
    assert_eq!(w.mint(ALICE, 0), Ok(0));
    w
}

fn wallet() -> Module {
    wallet_with(config(true, true, true, true))
}

#[test]
fn list_then_buy_scenario() {
    let mut w = wallet();
    assert_eq!(w.list(ALICE, ASSET, 100), Ok(()));
    let listing = w.listings(0).unwrap();
    assert_eq!(listing.id, 0);
    assert_eq!(listing.seller, ALICE);
    assert_eq!(listing.price, 100);
    assert_eq!(w.listing_count(), 1);
    assert!(w.is_owner(ESCROW, ASSET));
    assert!(w.is_locked(ASSET));

    assert_eq!(w.buy(BOB, 0), Ok(()));
    assert_eq!(w.free_balance(ALICE), 1000100);
    assert_eq!(w.free_balance(BOB), 999900);
    assert!(w.is_owner(BOB, ASSET));
    assert_eq!(w.listing_count(), 0);
    assert_eq!(w.listings(0), None);
    assert_eq!(w.all_listings(), vec![]);
    assert_eq!(w.listings_by_owner(ALICE), Some(vec![]));
    assert!(!w.is_locked(ASSET));
    assert_eq!(w.order_count(), 1);
    assert_eq!(w.order_history(ASSET), Some(Order { listing, buyer: BOB, block: 1 }));
}

#[test]
fn list_then_unlist_restores_holder() {
    let mut w = wallet();
    assert_eq!(w.list(ALICE, ASSET, 100), Ok(()));
    assert_eq!(w.unlist(ALICE, 0), Ok(()));
    assert!(w.is_owner(ALICE, ASSET));
    assert_eq!(w.listing_count(), 0);
    assert_eq!(w.all_listings(), vec![]);
    assert_eq!(w.listings_by_owner(ALICE), Some(vec![]));
    assert!(!w.is_locked(ASSET));
}

#[test]
fn listing_ids_are_never_reused() {
    let mut w = wallet();
    assert_eq!(w.list(ALICE, ASSET, 100), Ok(()));
    assert_eq!(w.unlist(ALICE, 0), Ok(()));
    assert_eq!(w.list(ALICE, ASSET, 70), Ok(()));
    assert_eq!(w.next_listing_id(), 2);
    assert_eq!(w.listings(0), None);
    assert_eq!(w.listings(1).unwrap().price, 70);
    assert_eq!(w.listings_by_owner(ALICE), Some(vec![1]));
}

#[test]
fn claim_ids_are_never_reused() {
    let mut w = wallet();
    assert_eq!(w.create_claim(ALICE, BOB, ASSET), Ok(()));
    assert_eq!(w.claim(&ApproveClaims, BOB, 0), Ok(()));
    assert_eq!(w.transfer(BOB, ALICE, ASSET), Ok(()));
    assert_eq!(w.create_claim(ALICE, CAROL, ASSET), Ok(()));
    assert_eq!(w.next_claim_id(), 2);
    assert_eq!(w.open_claims(BOB, 0), None);
    assert_eq!(w.open_claims(CAROL, 1).unwrap().receiver, CAROL);
}

#[test]
fn claim_round_trip() {
    let mut w = wallet();
    assert_eq!(w.create_claim(ALICE, BOB, ASSET), Ok(()));
    assert!(w.is_owner(CUSTODY, ASSET));
    assert!(w.is_locked(ASSET));
    assert_eq!(w.claim(&ApproveClaims, BOB, 0), Ok(()));
    assert!(w.is_owner(BOB, ASSET));
    assert!(!w.is_owner(CUSTODY, ASSET));
    assert_eq!(w.open_claims(BOB, 0), None);
    assert_eq!(w.all_claims(), vec![]);
    assert!(!w.is_locked(ASSET));
}

#[test]
fn claim_by_other_account_is_not_found() {
    let mut w = wallet();
    assert_eq!(w.create_claim(ALICE, BOB, ASSET), Ok(()));
    assert_eq!(w.claim(&ApproveClaims, CAROL, 0), Err(Error::ClaimNotFound));
    assert_eq!(w.claim(&ApproveClaims, BOB, 7), Err(Error::ClaimNotFound));
    assert!(w.is_owner(CUSTODY, ASSET));
}

#[test]
fn vetoed_claim_stays_open() {
    let mut w = wallet();
    assert_eq!(w.create_claim(ALICE, BOB, ASSET), Ok(()));
    assert_eq!(w.claim(&Veto, BOB, 0), Err(Error::ClaimCancelled));
    assert!(w.is_owner(CUSTODY, ASSET));
    assert!(w.open_claims(BOB, 0).is_some());
    assert_eq!(w.claim(&ApproveClaims, BOB, 0), Ok(()));
    assert!(w.is_owner(BOB, ASSET));
}

#[test]
fn complete_claim_follows_the_decision() {
    let mut w = wallet();
    assert_eq!(w.create_claim(ALICE, BOB, ASSET), Ok(()));
    assert_eq!(w.complete_claim(BOB, 0, false), Err(Error::ClaimCancelled));
    assert!(w.is_owner(CUSTODY, ASSET));
    assert_eq!(w.complete_claim(BOB, 0, true), Ok(()));
    assert!(w.is_owner(BOB, ASSET));
}

#[test]
fn claim_needs_class_administrator() {
    let mut w = wallet();
    assert_eq!(w.transfer(ALICE, BOB, ASSET), Ok(()));
    assert_eq!(w.create_claim(BOB, CAROL, ASSET), Err(Error::NoPermission));
    assert!(w.is_owner(BOB, ASSET));
    assert_eq!(w.next_claim_id(), 0);
}

#[test]
fn listed_asset_is_locked_for_everyone() {
    let mut w = wallet();
    assert_eq!(w.list(ALICE, ASSET, 100), Ok(()));
    assert_eq!(w.transfer(ESCROW, BOB, ASSET), Err(Error::AssetLocked));
    assert_eq!(w.burn(ESCROW, ASSET), Err(Error::AssetLocked));
    assert_eq!(w.list(ESCROW, ASSET, 5), Err(Error::AssetLocked));
    assert_eq!(w.create_claim(ALICE, BOB, ASSET), Err(Error::AssetLocked));
    assert!(w.is_owner(ESCROW, ASSET));
    assert_eq!(w.listing_count(), 1);
    assert_eq!(w.all_claims(), vec![]);
}

#[test]
fn claimed_asset_cannot_be_claimed_again() {
    let mut w = wallet();
    assert_eq!(w.create_claim(ALICE, BOB, ASSET), Ok(()));
    assert_eq!(w.create_claim(CUSTODY, CAROL, ASSET), Err(Error::AssetLocked));
    assert_eq!(w.next_claim_id(), 1);
}

#[test]
fn buy_that_would_drain_buyer_moves_nothing() {
    let mut w = wallet();
    assert_eq!(w.list(ALICE, ASSET, 999900), Ok(()));
    assert_eq!(w.buy(BOB, 0), Err(Error::KeepAlive));
    assert_eq!(w.free_balance(ALICE), 1000000);
    assert_eq!(w.free_balance(BOB), 1000000);
    assert!(w.is_owner(ESCROW, ASSET));
    assert_eq!(w.listing_count(), 1);
    assert_eq!(w.order_count(), 0);
}

#[test]
fn buy_beyond_balance_is_refused() {
    let mut w = wallet();
    assert_eq!(w.list(ALICE, ASSET, 2000000), Ok(()));
    assert_eq!(w.buy(BOB, 0), Err(Error::InsufficientBalance));
    assert!(w.is_owner(ESCROW, ASSET));
}

#[test]
fn seller_may_buy_own_listing() {
    let mut w = wallet();
    assert_eq!(w.list(ALICE, ASSET, 100), Ok(()));
    assert_eq!(w.buy(ALICE, 0), Ok(()));
    assert_eq!(w.free_balance(ALICE), 1000000);
    assert!(w.is_owner(ALICE, ASSET));
    assert_eq!(w.listing_count(), 0);
}

#[test]
fn disabled_operations_are_refused() {
    let mut w = wallet_with(config(false, false, false, false));
    assert_eq!(w.transfer(ALICE, BOB, ASSET), Err(Error::TransfersNotAllowed));
    assert_eq!(w.burn(ALICE, ASSET), Err(Error::BurningNotAllowed));
    assert_eq!(w.list(ALICE, ASSET, 1), Err(Error::EscrowNotAllowed));
    assert_eq!(w.unlist(ALICE, 0), Err(Error::EscrowNotAllowed));
    assert_eq!(w.buy(BOB, 0), Err(Error::EscrowNotAllowed));
    assert_eq!(w.create_claim(ALICE, BOB, ASSET), Err(Error::ClaimingNotAllowed));
    assert_eq!(w.claim(&ApproveClaims, BOB, 0), Err(Error::ClaimingNotAllowed));
    assert!(w.is_owner(ALICE, ASSET));
}

#[test]
fn unlist_of_missing_listing_is_not_found() {
    let mut w = wallet();
    assert_eq!(w.unlist(ALICE, 3), Err(Error::ListingNotFound));
}

#[test]
fn emote_stores_the_emoji() {
    let mut w = wallet();
    assert_eq!(w.emote(BOB, ASSET, "fish".as_bytes().to_vec()), Ok(()));
    assert_eq!(w.emote(BOB, ASSET, "rocket".as_bytes().to_vec()), Ok(()));
    assert_eq!(w.emote(CAROL, ASSET, "fish".as_bytes().to_vec()), Ok(()));
    assert_eq!(
        w.emotes(ASSET, BOB),
        vec!["🐟".as_bytes().to_vec(), "🚀".as_bytes().to_vec()]
    );
    assert_eq!(w.emotes(ASSET, CAROL).len(), 1);
    assert_eq!(w.emotes(ASSET, ALICE).len(), 0);
}

#[test]
fn emote_rejects_bytes_that_are_not_text() {
    let mut w = wallet();
    assert_eq!(w.emote(BOB, ASSET, vec![0xff, 0xfe]), Err(Error::InvalidEmote));
}

#[test]
fn post_emote_takes_a_looked_up_emoji() {
    let mut w = wallet();
    assert_eq!(w.post_emote(BOB, ASSET, None), Err(Error::InvalidEmote));
    assert_eq!(w.post_emote(BOB, (0, 9), Some(vec![1])), Err(Error::AssetNotFound));
    assert_eq!(w.post_emote(BOB, ASSET, Some(vec![1, 2])), Ok(()));
    assert_eq!(w.emotes(ASSET, BOB), vec![vec![1, 2]]);
}

#[test]
fn registry_errors() {
    let mut r = Registry::new();
    assert_eq!(r.mint(ALICE, 0), Err(Error::ClassNotFound));
    assert_eq!(r.create_class(ALICE), Ok(0));
    assert_eq!(r.mint(BOB, 0), Ok(0));
    assert_eq!(r.mint(BOB, 0), Ok(1));
    assert_eq!(r.transfer(ALICE, BOB, (0, 5)), Err(Error::TokenNotFound));
    assert_eq!(r.transfer(ALICE, CAROL, (0, 1)), Err(Error::NoPermission));
    assert_eq!(r.burn(BOB, (0, 1)), Ok(()));
    assert!(!r.token_exists((0, 1)));
    assert_eq!(r.burn(BOB, (0, 1)), Err(Error::TokenNotFound));
    assert_eq!(r.class_owner(0), Some(ALICE));
    assert_eq!(r.class_owner(1), None);
}

#[test]
fn ledger_errors() {
    let mut l = Ledger::new(500);
    assert_eq!(l.deposit(ALICE, 1000), Ok(()));
    assert_eq!(l.transfer(ALICE, BOB, 100), Err(Error::ExistentialDeposit));
    assert_eq!(l.transfer(ALICE, BOB, 600), Err(Error::KeepAlive));
    assert_eq!(l.transfer(ALICE, BOB, 5000), Err(Error::InsufficientBalance));
    assert_eq!(l.transfer(ALICE, BOB, 500), Ok(()));
    assert_eq!(l.free_balance(ALICE), 500);
    assert_eq!(l.free_balance(BOB), 500);
    assert_eq!(l.deposit(CAROL, u128::MAX), Ok(()));
    assert_eq!(l.deposit(CAROL, 1), Err(Error::BalanceOverflow));
    assert_eq!(l.transfer(ALICE, CAROL, 0), Ok(()));
    assert_eq!(l.free_balance(ALICE), 500);
}

#[test]
fn custody_accounts_come_from_the_config() {
    let w = wallet();
    assert_eq!(w.get_escrow_account(), ESCROW);
    assert_eq!(w.get_claim_account(), CUSTODY);
}

#[test]
fn operations_report_events() {
    let mut w = wallet();
    assert_eq!(w.mint(ALICE, 0), Ok(1));
    assert_eq!(w.list(ALICE, ASSET, 100), Ok(()));
    assert_eq!(w.buy(BOB, 0), Ok(()));
    assert_eq!(w.transfer(BOB, CAROL, ASSET), Ok(()));
    assert_eq!(w.burn(CAROL, ASSET), Ok(()));
    assert_eq!(w.list(ALICE, (0, 1), 5), Ok(()));
    assert_eq!(w.unlist(ALICE, 1), Ok(()));
    assert_eq!(w.create_claim(ALICE, BOB, (0, 1)), Ok(()));
    assert_eq!(w.claim(&ApproveClaims, BOB, 0), Ok(()));
    assert_eq!(w.transfer(ALICE, BOB, (0, 7)), Err(Error::NoPermission));
    assert_eq!(
        w.events(),
        vec![
            Event::WalletAssetListed(ALICE, 100, 0, 0, 0),
            Event::WalletAssetPurchased(ALICE, BOB, 0, 0),
            Event::WalletAssetBuySuccess(ALICE, BOB, 0, 100),
            Event::WalletAssetTransferred(BOB, CAROL, 0, 0),
            Event::WalletAssetBurned(CAROL, 0, 0),
            Event::WalletAssetListed(ALICE, 5, 1, 0, 1),
            Event::WalletAssetUnlisted(ALICE, 1, 0, 1),
            Event::WalletClaimCreated(ALICE, BOB, 0, 1),
            Event::WalletAssetClaimed(BOB, 0, 1),
        ]
    );
}

#[test]
fn custody_accounts_cannot_receive_assets() {
    let mut w = wallet();
    assert_eq!(w.transfer(ALICE, ESCROW, ASSET), Err(Error::CustodyAccount));
    assert_eq!(w.transfer(ALICE, CUSTODY, ASSET), Err(Error::CustodyAccount));
    assert_eq!(w.mint(ESCROW, 0), Err(Error::CustodyAccount));
    assert_eq!(w.mint(CUSTODY, 0), Err(Error::CustodyAccount));
    assert_eq!(w.create_claim(ALICE, CUSTODY, ASSET), Err(Error::CustodyAccount));
    assert_eq!(w.create_claim(ALICE, ESCROW, ASSET), Err(Error::CustodyAccount));
    assert!(w.is_owner(ALICE, ASSET));
    assert!(!w.is_locked(ASSET));
    assert_eq!(w.next_claim_id(), 0);
    assert_eq!(w.events(), vec![]);
    assert_eq!(w.mint(ALICE, 0), Ok(1));
}

#[test]
fn custody_accounts_cannot_buy() {
    let mut w = wallet();
    w.deposit(ESCROW, 1000000).unwrap();
    w.deposit(CUSTODY, 1000000).unwrap();
    assert_eq!(w.list(ALICE, ASSET, 100), Ok(()));
    assert_eq!(w.buy(ESCROW, 0), Err(Error::CustodyAccount));
    assert_eq!(w.buy(CUSTODY, 0), Err(Error::CustodyAccount));
    assert!(w.is_owner(ESCROW, ASSET));
    assert!(w.is_locked(ASSET));
    assert_eq!(w.free_balance(ALICE), 1000000);
    assert_eq!(w.free_balance(ESCROW), 1000000);
    assert_eq!(w.listing_count(), 1);
}

#[test]
fn custody_holdings_are_always_locked() {
    let mut w = wallet();
    assert_eq!(w.mint(ALICE, 0), Ok(1));
    assert_eq!(w.list(ALICE, ASSET, 100), Ok(()));
    assert_eq!(w.create_claim(ALICE, BOB, (0, 1)), Ok(()));
    assert!(w.is_custody(ESCROW));
    assert!(w.is_custody(CUSTODY));
    assert!(!w.is_custody(ALICE));
    assert!(w.is_owner(ESCROW, ASSET) && w.is_locked(ASSET));
    assert!(w.is_owner(CUSTODY, (0, 1)) && w.is_locked((0, 1)));
    assert_eq!(w.unlist(ALICE, 0), Ok(()));
    assert_eq!(w.claim(&ApproveClaims, BOB, 0), Ok(()));
    assert!(!w.is_owner(ESCROW, ASSET) && !w.is_locked(ASSET));
    assert!(!w.is_owner(CUSTODY, (0, 1)) && !w.is_locked((0, 1)));
    assert_ne!(w.get_escrow_account(), w.get_claim_account());
}
