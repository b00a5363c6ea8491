use vstd::prelude::*;

use crate::seqs::{lemma_remove_all_absent, lemma_remove_all_contains};
use crate::types::{AccountId, Asset, Balance, Error, ListingId};
use crate::wallet::{buy_result, ids_advance, lemma_module_wf, Module, WalletView};

verus! {

/// An asset is locked exactly when an active listing or an open claim holds it, and
/// never both. The escrow account and the claim account are two accounts; the escrow
/// account holds an asset exactly when a listing offers it, and the claim account holds
/// one exactly when a claim pledges it, so an asset in custody is always locked.
pub proof fn lemma_lock_exclusive(w: WalletView, a: Asset)
    requires
        w.wf(),
    ensures
        w.is_locked(a) <==> (w.listing_for(a) || w.claim_for(a)),
        !(w.listing_for(a) && w.claim_for(a)),
        w.config.escrow_account != w.config.claim_account,
        w.owns(w.config.escrow_account, a) <==> w.listing_for(a),
        w.owns(w.config.claim_account, a) <==> w.claim_for(a),
        w.owns(w.config.escrow_account, a) || w.owns(w.config.claim_account, a) ==> w.is_locked(a),
{
    if w.listing_for(a) {
        let id = choose|id: ListingId| #[trigger]
            w.listings.contains_key(id) && w.listings[id].asset == a;
        assert(w.listing_ok(id));
        assert(w.is_listed(a));
    }
    if w.claim_for(a) {
        let c = choose|c: u128| #[trigger]
            w.open_claims.contains_key(c) && w.open_claims[c].asset == a;
        assert(w.claim_ok(c));
        assert(w.is_claimed(a));
    }
    if w.owns(w.config.escrow_account, a) {
        assert(w.is_listed(a));
    }
    if w.owns(w.config.claim_account, a) {
        assert(w.is_claimed(a));
    }
    if w.is_listed(a) {
        assert(w.listing_for(a));
    }
    if w.is_claimed(a) {
        assert(w.claim_for(a));
    }
}

/// The same, of a live wallet.
pub proof fn lemma_module_lock_exclusive(m: &Module, a: Asset)
    requires
        m.wf(),
    ensures
        m@.is_locked(a) <==> (m@.listing_for(a) || m@.claim_for(a)),
        !(m@.listing_for(a) && m@.claim_for(a)),
        m@.config.escrow_account != m@.config.claim_account,
        m@.owns(m@.config.escrow_account, a) <==> m@.listing_for(a),
        m@.owns(m@.config.claim_account, a) <==> m@.claim_for(a),
{
    lemma_module_wf(m);
    lemma_lock_exclusive(m@, a);
}

/// Listing an asset and then ending that listing as its seller gives the asset back to
/// the seller, restores the listing count, the listings and the seller's id list, and
/// leaves the asset in no index.
pub proof fn lemma_list_then_unlist(w: WalletView, seller: AccountId, a: Asset, price: Balance)
    requires
        w.wf(),
        w.list_error(seller, a) is None,
    ensures
        ({
            let id = w.next_listing_id;
            let listed = w.after_list(seller, a, price);
            let back = listed.after_unlist(seller, id);
            &&& listed.unlist_error(seller, id) is None
            &&& back.registry == w.registry
            &&& back.owns(seller, a)
            &&& back.listing_count == w.listing_count
            &&& back.listings == w.listings
            &&& back.all_listings == w.all_listings
            &&& !back.is_locked(a)
            &&& !back.listing_for(a)
            &&& !back.owner_listing_ids(seller).contains(id)
            &&& back.owner_listing_ids(seller) == w.owner_listing_ids(seller)
        }),
{
    let id = w.next_listing_id;
    let listed = w.after_list(seller, a, price);
    let back = listed.after_unlist(seller, id);
    assert(listed.listings[id].asset == a);
    assert(back.registry.owners =~= w.registry.owners);
    assert(back.listings =~= w.listings) by {
        assert(!w.listings.contains_key(id));
    }
    assert(!w.is_listed(a));
    assert(listed.all_listings.drop_last() == w.all_listings);
    lemma_remove_all_absent(w.all_listings, a);
    assert(back.all_listings == w.all_listings);
    lemma_remove_all_contains(listed.owner_listing_ids(seller), id);
    let s = w.owner_listing_ids(seller);
    assert(!s.contains(id)) by {
        if s.contains(id) {
            assert(w.listing_ok(id));
        }
    }
    assert(listed.owner_listing_ids(seller) == s.push(id));
    assert(s.push(id).drop_last() == s);
    lemma_remove_all_absent(s, id);
    if back.listing_for(a) {
        let j = choose|j: ListingId| #[trigger]
            back.listings.contains_key(j) && back.listings[j].asset == a;
        assert(w.listings.contains_key(j));
        assert(w.is_listed(a));
    }
}

/// A sale moves both the price and the asset, or neither: after a successful purchase
/// from another account the seller has gained the price, the buyer has paid it and holds
/// the asset; after a refused one nothing has changed.
pub proof fn lemma_buy_atomic(
    pre: WalletView,
    buyer: AccountId,
    id: ListingId,
    r: Result<(), Error>,
    post: WalletView,
)
    requires
        pre.wf(),
        pre.listings.contains_key(id),
        buyer != pre.listings[id].seller,
        buy_result(pre, buyer, id, r, post),
    ensures
        r is Err ==> post == pre,
        r is Ok ==> {
            let l = pre.listings[id];
            &&& post.ledger.balance(l.seller) == pre.ledger.balance(l.seller) + l.price
            &&& post.ledger.balance(buyer) == pre.ledger.balance(buyer) - l.price
            &&& post.owns(buyer, l.asset)
            &&& !post.listings.contains_key(id)
        },
{
}

/// Pledging an asset and then taking the claim as its receiver leaves the asset with the
/// receiver, and no claim or claim index entry for it remains.
pub proof fn lemma_claim_round_trip(
    w: WalletView,
    creator: AccountId,
    receiver: AccountId,
    a: Asset,
)
    requires
        w.wf(),
        w.create_claim_error(creator, receiver, a) is None,
    ensures
        ({
            let id = w.next_claim_id;
            let pledged = w.after_create_claim(creator, receiver, a);
            let taken = pledged.after_claim(id);
            &&& pledged.claim_error(receiver, id) is None
            &&& taken.owns(receiver, a)
            &&& taken.registry == w.registry.moved(a, receiver)
            &&& taken.open_claims == w.open_claims
            &&& taken.all_claims == w.all_claims
            &&& !taken.claim_for(a)
            &&& !taken.is_locked(a)
            &&& !taken.owns(w.config.claim_account, a)
        }),
{
    let id = w.next_claim_id;
    let pledged = w.after_create_claim(creator, receiver, a);
    let taken = pledged.after_claim(id);
    assert(pledged.open_claims[id].asset == a);
    assert(!w.open_claims.contains_key(id));
    assert(taken.open_claims =~= w.open_claims);
    assert(taken.registry.owners =~= w.registry.moved(a, receiver).owners);
    assert(!w.is_claimed(a));
    assert(pledged.all_claims.drop_last() == w.all_claims);
    lemma_remove_all_absent(w.all_claims, a);
    if taken.claim_for(a) {
        let j = choose|j: u128| #[trigger]
            taken.open_claims.contains_key(j) && taken.open_claims[j].asset == a;
        assert(w.open_claims.contains_key(j));
        assert(w.is_claimed(a));
    }
}

/// Every active listing and open claim has an id below the next one, so a new listing or
/// claim never takes an id in use, and each new one advances its counter by one.
pub proof fn lemma_ids_fresh(w: WalletView, caller: AccountId, receiver: AccountId, a: Asset, price: Balance)
    requires
        w.wf(),
    ensures
        forall|id: ListingId| #[trigger] w.listings.contains_key(id) ==> id < w.next_listing_id,
        forall|c: u128| #[trigger] w.open_claims.contains_key(c) ==> c < w.next_claim_id,
        w.list_error(caller, a) is None ==> w.after_list(caller, a, price).next_listing_id
            == w.next_listing_id + 1,
        w.create_claim_error(caller, receiver, a) is None ==> w.after_create_claim(
            caller,
            receiver,
            a,
        ).next_claim_id
            == w.next_claim_id + 1,
{
}

/// The next ids never go back across a sequence of operations.
pub proof fn lemma_ids_advance_chain(a: WalletView, b: WalletView, c: WalletView)
    requires
        ids_advance(a, b),
        ids_advance(b, c),
    ensures
        ids_advance(a, c),
{
}

/// With transfers, burning and listing enabled, an asset under an open claim cannot be
/// transferred, burned or listed by anyone: each is refused as locked, and a refused
/// operation changes nothing.
pub proof fn lemma_claimed_asset_rejected(w: WalletView, caller: AccountId, to: AccountId, a: Asset)
    requires
        w.wf(),
        w.claim_for(a),
        w.config.allow_transfer,
        w.config.allow_burn,
        w.config.allow_escrow,
    ensures
        w.transfer_error(caller, to, a) == Some(Error::AssetLocked),
        w.burn_error(caller, a) == Some(Error::AssetLocked),
        w.list_error(caller, a) == Some(Error::AssetLocked),
{
    lemma_lock_exclusive(w, a);
}

} // verus!
