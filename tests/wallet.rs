use gamepower_wallet::types::{Asset, ClassId, Error, ListingId, TokenId};
use gamepower_wallet::wallet::{Module, WalletConfig};

const ALICE: u64 = 1;
const BOB: u64 = 2;
const CLASS_ID: ClassId = 0;
const CLASS_ID_NOT_EXIST: ClassId = 1;
const TOKEN_ID: TokenId = 0;
const TOKEN_ID_NOT_EXIST: TokenId = 1;
const LISTING_ID: ListingId = 0;
const LISTING_ID_NOT_EXIST: ListingId = 1;

fn new_test_wallet() -> Module {
    let config = WalletConfig {
        allow_transfer: true,
        allow_burn: true,
        allow_escrow: true,
        allow_claim: true,
        escrow_account: 1000,
        claim_account: 1001,
    };
    let mut w = Module::new(config, 500);
    for who in 1..=5u64 {
        w.deposit(who, 1000000).unwrap();
    }
    w.set_block_number(1);
    w
}

fn asset() -> Asset {
    (CLASS_ID, TOKEN_ID)
}

#[test]
fn transfer_should_work() {
    let mut w = new_test_wallet();
    assert_eq!(w.create_class(ALICE), Ok(CLASS_ID));
    assert_eq!(w.mint(BOB, CLASS_ID), Ok(TOKEN_ID));

    assert_eq!(w.transfer(2, ALICE, (CLASS_ID, TOKEN_ID)), Ok(()));
    assert!(w.is_owner(ALICE, (CLASS_ID, TOKEN_ID)));
}

#[test]
fn transfer_should_fail() {
    let mut w = new_test_wallet();
    assert_eq!(w.create_class(ALICE), Ok(CLASS_ID));
    assert_eq!(w.mint(BOB, CLASS_ID), Ok(TOKEN_ID));

    assert_eq!(
        w.transfer(2, ALICE, (CLASS_ID_NOT_EXIST, TOKEN_ID_NOT_EXIST)),
        Err(Error::NoPermission)
    );
    assert!(w.is_owner(BOB, asset()));
}

#[test]
fn burn_should_work() {
    let mut w = new_test_wallet();
    assert_eq!(w.create_class(ALICE), Ok(CLASS_ID));
    assert_eq!(w.mint(ALICE, CLASS_ID), Ok(TOKEN_ID));

    assert_eq!(w.burn(1, (CLASS_ID, TOKEN_ID)), Ok(()));
    assert!(!w.is_owner(ALICE, asset()));
}

#[test]
fn burn_should_fail() {
    let mut w = new_test_wallet();
    assert_eq!(w.create_class(ALICE), Ok(CLASS_ID));
    assert_eq!(w.mint(ALICE, CLASS_ID), Ok(TOKEN_ID));

    assert_eq!(w.burn(1, (CLASS_ID_NOT_EXIST, TOKEN_ID)), Err(Error::NoPermission));
    assert!(w.is_owner(ALICE, asset()));
}

#[test]
fn create_listing_should_work() {
    let mut w = new_test_wallet();
    assert_eq!(w.create_class(ALICE), Ok(CLASS_ID));
    assert_eq!(w.mint(ALICE, CLASS_ID), Ok(TOKEN_ID));

    assert_eq!(w.list(1, (CLASS_ID, TOKEN_ID), 100), Ok(()));

    assert_eq!(w.next_listing_id(), 1, "The next listing id is incorrect");
    assert_eq!(w.listing_count(), 1, "The total number of listings is incorrect");
    assert_eq!(w.all_listings().len(), 1, "Listing not added to all");
    assert_eq!(w.listings_by_owner(1), Some(vec![0]), "Listing by owner not added");
    assert_eq!(w.listings(0).is_some(), true, "Listing not added");
}

#[test]
fn create_listing_should_fail() {
    let mut w = new_test_wallet();
    assert_eq!(w.create_class(ALICE), Ok(CLASS_ID));
    assert_eq!(w.mint(ALICE, CLASS_ID), Ok(TOKEN_ID));

    assert_eq!(w.list(1, (CLASS_ID_NOT_EXIST, TOKEN_ID), 100), Err(Error::NoPermission));

    assert_eq!(w.listing_count(), 0, "The total number of listings is incorrect");
    assert_eq!(w.all_listings().len(), 0, "The number of all listings is incorrect");
}

#[test]
fn unlisting_should_work() {
    let mut w = new_test_wallet();
    assert_eq!(w.create_class(ALICE), Ok(CLASS_ID));
    assert_eq!(w.mint(ALICE, CLASS_ID), Ok(TOKEN_ID));

    assert_eq!(w.list(1, (CLASS_ID, TOKEN_ID), 100), Ok(()));

    assert_eq!(w.unlist(1, LISTING_ID), Ok(()));
    assert_eq!(w.listing_count(), 0, "The total number of listings is incorrect");
    assert_eq!(w.all_listings().len(), 0, "Listing not removed from all");
    assert_eq!(w.listings_by_owner(1), Some(vec![]), "Listing by owner not removed");
    assert_eq!(w.listings(0), None, "Listing not removed");
}

#[test]
fn unlisting_should_fail() {
    let mut w = new_test_wallet();
    assert_eq!(w.create_class(ALICE), Ok(CLASS_ID));
    assert_eq!(w.mint(ALICE, CLASS_ID), Ok(TOKEN_ID));

    assert_eq!(w.list(1, (CLASS_ID, TOKEN_ID), 100), Ok(()));

    assert_eq!(w.unlist(2, LISTING_ID), Err(Error::NoPermission));

    assert_eq!(w.listing_count(), 1, "The total number of listings is incorrect");
    assert_eq!(w.all_listings().len(), 1, "The number of all listings is incorrect");
    assert_eq!(w.listings_by_owner(1), Some(vec![0]), "Listing by owner should have a value");
    assert_eq!(w.listings(0).is_some(), true, "Listing should not be removed");
}

#[test]
fn create_claim_should_work() {
    let mut w = new_test_wallet();
    assert_eq!(w.create_class(ALICE), Ok(CLASS_ID));
    assert_eq!(w.mint(ALICE, CLASS_ID), Ok(TOKEN_ID));

    assert_eq!(w.create_claim(1, BOB, (CLASS_ID, TOKEN_ID)), Ok(()));

    assert_eq!(w.next_claim_id(), 1, "The next claim id is incorrect");
    assert_eq!(w.all_claims().len(), 1, "Claim not added to all");
    assert_eq!(w.open_claims(BOB, 0).is_some(), true, "Claim not added");
}

#[test]
fn create_claim_should_fail() {
    let mut w = new_test_wallet();
    assert_eq!(w.create_class(ALICE), Ok(CLASS_ID));
    assert_eq!(w.mint(ALICE, CLASS_ID), Ok(TOKEN_ID));

    assert_eq!(w.create_claim(2, BOB, (CLASS_ID, TOKEN_ID)), Err(Error::NoPermission));

    assert_eq!(w.next_claim_id(), 0, "The next claim id is incorrect");
    assert_eq!(w.all_claims().len(), 0, "Claim not added to all");
    assert_eq!(w.open_claims(BOB, 0).is_some(), false, "Claim should not be added");
}

#[test]
fn buy_should_work() {
    let mut w = new_test_wallet();
    assert_eq!(w.create_class(ALICE), Ok(CLASS_ID));
    assert_eq!(w.mint(ALICE, CLASS_ID), Ok(TOKEN_ID));

    assert_eq!(w.listings(0), None, "Listing was not empty");

    assert_eq!(w.list(1, (CLASS_ID, TOKEN_ID), 100), Ok(()));

    assert_eq!(w.all_listings().len(), 1, "Listing not created");
    assert_eq!(w.buy(2, LISTING_ID), Ok(()));
    assert_eq!(w.listing_count(), 0, "The total number of listings is incorrect");
    assert_eq!(w.all_listings().len(), 0, "Listing not removed from all!");
    assert_eq!(w.listings_by_owner(1), Some(vec![]), "Listing by owner not removed");
    assert_eq!(w.listings(0), None, "Listing not removed");

    assert_eq!(w.free_balance(ALICE), 1000000 + 100);
    assert_eq!(w.free_balance(BOB), 1000000 - 100);
}

#[test]
fn buy_should_fail() {
    let mut w = new_test_wallet();
    assert_eq!(w.create_class(ALICE), Ok(CLASS_ID));
    assert_eq!(w.mint(ALICE, CLASS_ID), Ok(TOKEN_ID));

    assert_eq!(w.list(1, (CLASS_ID, TOKEN_ID), 100), Ok(()));

    assert_eq!(w.buy(2, LISTING_ID_NOT_EXIST), Err(Error::ListingNotFound));

    assert_eq!(w.listing_count(), 1, "The total number of listings is incorrect");
    assert_eq!(w.all_listings().len(), 1, "Listing should not be removed from all!");
    assert_eq!(w.listings_by_owner(ALICE), Some(vec![0]), "Listing by owner should not be removed");
    assert_eq!(w.listings(0).is_some(), true, "Listing should not be removed");

    assert_eq!(w.free_balance(ALICE), 1000000);
    assert_eq!(w.free_balance(BOB), 1000000);
}

#[test]
fn emote_should_work() {
    let mut w = new_test_wallet();
    assert_eq!(w.create_class(ALICE), Ok(CLASS_ID));
    assert_eq!(w.mint(ALICE, CLASS_ID), Ok(TOKEN_ID));

    assert_eq!(w.emote(2, (CLASS_ID, TOKEN_ID), "fish".as_bytes().to_vec()), Ok(()));

    assert_eq!(w.emotes((CLASS_ID, TOKEN_ID), BOB).len(), 1, "Emote should be added");
}

#[test]
fn emote_should_fail() {
    let mut w = new_test_wallet();
    assert_eq!(w.create_class(ALICE), Ok(CLASS_ID));
    assert_eq!(w.mint(ALICE, CLASS_ID), Ok(TOKEN_ID));

    assert_eq!(
        w.emote(2, (CLASS_ID, TOKEN_ID), "fasdfasdfaish".as_bytes().to_vec()),
        Err(Error::InvalidEmote)
    );

    assert_eq!(w.emotes((CLASS_ID, TOKEN_ID), BOB).len(), 0, "Emote should not be added");
}

#[test]
fn emote_should_fail_for_invalid_token() {
    let mut w = new_test_wallet();
    assert_eq!(w.create_class(ALICE), Ok(CLASS_ID));
    assert_eq!(w.mint(ALICE, CLASS_ID), Ok(TOKEN_ID));

    assert_eq!(
        w.emote(2, (CLASS_ID_NOT_EXIST, TOKEN_ID), "fish".as_bytes().to_vec()),
        Err(Error::AssetNotFound)
    );
}

// A claimed asset is locked: every operation that needs an unlocked asset is refused
// as such, and nothing changes.
#[test]
fn locked_asset_should_fail() {
    let mut w = new_test_wallet();
    assert_eq!(w.create_class(ALICE), Ok(CLASS_ID));
    assert_eq!(w.mint(ALICE, CLASS_ID), Ok(TOKEN_ID));

    assert_eq!(w.create_claim(1, BOB, (CLASS_ID, TOKEN_ID)), Ok(()));

    assert_eq!(w.burn(1, (CLASS_ID, TOKEN_ID)), Err(Error::AssetLocked));
    assert_eq!(w.transfer(1, BOB, (CLASS_ID, TOKEN_ID)), Err(Error::AssetLocked));
    assert_eq!(w.list(1, (CLASS_ID, TOKEN_ID), 100), Err(Error::AssetLocked));
    assert!(w.is_owner(w.get_claim_account(), asset()));
    assert_eq!(w.listing_count(), 0);
    assert_eq!(w.all_claims(), vec![asset()]);
}
