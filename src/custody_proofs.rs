use vstd::prelude::*;

use crate::registry::RegistryView;
use crate::seqs::{
    lemma_push_contains, lemma_push_unique, lemma_remove_all_contains, lemma_remove_all_unique,
    remove_all,
};
use crate::types::{asset_key, AccountId, Asset, Balance, ClaimId, ListingId};
use crate::wallet::WalletView;

verus! {

/// The listing side of the invariant carries over to a state with the same listings and
/// indexes whose escrow account still holds every listed asset.
proof fn lemma_listings_frame(v: WalletView, n: WalletView)
    requires
        v.listings_wf(),
        n.config == v.config,
        n.listings == v.listings,
        n.listings_by_owner == v.listings_by_owner,
        n.all_listings == v.all_listings,
        n.next_listing_id == v.next_listing_id,
        n.listing_count == v.listing_count,
        forall|i: ListingId| #[trigger]
            v.listings.contains_key(i) ==> n.owns(n.config.escrow_account, v.listings[i].asset),
    ensures
        n.listings_wf(),
{
    assert forall|i: ListingId| #[trigger] n.listings.contains_key(i) implies n.listing_ok(i) by {
        assert(v.listing_ok(i));
        assert(n.owner_listing_ids(n.listings[i].seller) == v.owner_listing_ids(
            v.listings[i].seller,
        ));
    }
    assert forall|o: AccountId, j: ListingId| #[trigger]
        n.owner_listing_ids(o).contains(j) implies n.listings.contains_key(j)
        && n.listings[j].seller == o by {
        assert(n.owner_listing_ids(o) == v.owner_listing_ids(o));
    }
    assert forall|o: AccountId| #[trigger] n.owner_listing_ids(o).no_duplicates() by {
        assert(n.owner_listing_ids(o) == v.owner_listing_ids(o));
    }
    assert forall|a: Asset| #[trigger] n.is_listed(a) implies n.listing_for(a) by {
        assert(v.is_listed(a));
        assert(v.listing_for(a));
        let j = choose|j: ListingId| #[trigger]
            v.listings.contains_key(j) && v.listings[j].asset == a;
        assert(n.listings.contains_key(j));
    }
}

/// The claim side of the invariant carries over to a state with the same claims whose
/// claim account still holds every claimed asset.
proof fn lemma_claims_frame(v: WalletView, n: WalletView)
    requires
        v.claims_wf(),
        n.config == v.config,
        n.open_claims == v.open_claims,
        n.all_claims == v.all_claims,
        n.next_claim_id == v.next_claim_id,
        forall|c: ClaimId| #[trigger]
            v.open_claims.contains_key(c) ==> n.owns(n.config.claim_account, v.open_claims[c].asset),
    ensures
        n.claims_wf(),
{
    assert forall|c: ClaimId| #[trigger] n.open_claims.contains_key(c) implies n.claim_ok(c) by {
        assert(v.claim_ok(c));
    }
    assert forall|a: Asset| #[trigger] n.is_claimed(a) implies n.claim_for(a) by {
        assert(v.is_claimed(a));
        assert(v.claim_for(a));
        let c = choose|c: ClaimId| #[trigger]
            v.open_claims.contains_key(c) && v.open_claims[c].asset == a;
        assert(n.open_claims.contains_key(c));
    }
}

/// Ending a listing and handing its asset to an account other than a custody account
/// keeps the invariant.
pub(crate) proof fn lemma_unlisted_wf(v: WalletView, id: ListingId, to: AccountId)
    requires
        v.wf(),
        v.listings.contains_key(id),
        !v.is_custody(to),
    ensures
        v.unlisted(id, to).wf(),
{
    let l = v.listings[id];
    let n = v.unlisted(id, to);
    let e = v.config.escrow_account;
    let c = v.config.claim_account;
    let s = v.owner_listing_ids(l.seller);
    assert(v.listing_ok(id));
    assert(v.registry.has_token(l.asset));
    lemma_moved_elsewhere(v.registry, l.asset, to);
    lemma_remove_all_unique(v.all_listings, l.asset);
    lemma_remove_all_contains(v.all_listings, l.asset);
    lemma_remove_all_unique(s, id);
    lemma_remove_all_contains(s, id);
    assert forall|o: AccountId| #[trigger]
        n.owner_listing_ids(o) == (if o == l.seller {
            remove_all(s, id)
        } else {
            v.owner_listing_ids(o)
        }) by {}
    assert forall|i: ListingId| #[trigger] n.listings.contains_key(i) implies n.listing_ok(i) by {
        let m = v.listings[i];
        assert(v.listings.contains_key(i));
        assert(v.listing_ok(i));
        assert(m.asset != l.asset);
        assert(n.owner_listing_ids(m.seller).contains(i));
    }
    assert forall|o: AccountId, j: ListingId| #[trigger]
        n.owner_listing_ids(o).contains(j) implies n.listings.contains_key(j)
        && n.listings[j].seller == o by {
        if o == l.seller {
            assert(s.contains(j));
        } else {
            assert(v.owner_listing_ids(o).contains(j));
        }
    }
    assert forall|o: AccountId| #[trigger] n.owner_listing_ids(o).no_duplicates() by {
        assert(v.owner_listing_ids(o).no_duplicates());
    }
    assert forall|a: Asset| #[trigger] n.is_listed(a) implies n.listing_for(a) by {
        assert(v.is_listed(a));
        assert(v.listing_for(a));
        let j = choose|j: ListingId| #[trigger]
            v.listings.contains_key(j) && v.listings[j].asset == a;
        assert(n.listings.contains_key(j));
    }
    assert(n.listings_wf());
    assert forall|k: ClaimId| #[trigger] v.open_claims.contains_key(k) implies n.owns(
        c,
        v.open_claims[k].asset,
    ) by {
        assert(v.claim_ok(k));
        assert(!v.is_listed(v.open_claims[k].asset));
    }
    lemma_claims_frame(v, n);
    assert forall|a: Asset| !(#[trigger] n.is_listed(a) && n.is_claimed(a)) by {
        if n.is_listed(a) {
            assert(v.is_listed(a));
        }
    }
    assert forall|a: Asset| #[trigger] n.owns(e, a) implies n.is_listed(a) by {
        if a != l.asset {
            assert(v.owns(e, a));
        }
    }
    assert forall|a: Asset| #[trigger] n.owns(c, a) implies n.is_claimed(a) by {
        if a != l.asset {
            assert(v.owns(c, a));
        }
    }
}

/// The invariant speaks only of custody: balances, orders, events, emotes and the block
/// number do not touch it.
pub(crate) proof fn lemma_wf_same_custody(v: WalletView, n: WalletView)
    requires
        v.wf(),
        n.config == v.config,
        n.registry == v.registry,
        n.listings == v.listings,
        n.listings_by_owner == v.listings_by_owner,
        n.all_listings == v.all_listings,
        n.next_listing_id == v.next_listing_id,
        n.listing_count == v.listing_count,
        n.open_claims == v.open_claims,
        n.all_claims == v.all_claims,
        n.next_claim_id == v.next_claim_id,
    ensures
        n.wf(),
{
    lemma_wf_registry_classes(v, n);
}

/// Changing the holder of an unlocked asset, or destroying it, keeps the invariant except
/// perhaps for where that asset now is.
proof fn lemma_wf_registry_change_core(v: WalletView, n: WalletView, a: Asset)
    requires
        v.wf(),
        !v.is_locked(a),
        n == (WalletView { registry: n.registry, ..v }),
        n.registry.wf(),
        forall|b: Asset|
            b != a ==> #[trigger] n.registry.has_token(b) == v.registry.has_token(b)
                && n.registry.owners[asset_key(b)] == v.registry.owners[asset_key(b)],
    ensures
        n.wf_core(),
        forall|b: Asset| #[trigger]
            n.owns(n.config.escrow_account, b) && b != a ==> n.is_listed(b),
        forall|b: Asset| #[trigger]
            n.owns(n.config.claim_account, b) && b != a ==> n.is_claimed(b),
{
    assert forall|i: ListingId| #[trigger] v.listings.contains_key(i) implies n.owns(
        n.config.escrow_account,
        v.listings[i].asset,
    ) by {
        assert(v.listing_ok(i));
        assert(n.registry.has_token(v.listings[i].asset));
    }
    lemma_listings_frame(v, n);
    assert forall|k: ClaimId| #[trigger] v.open_claims.contains_key(k) implies n.owns(
        n.config.claim_account,
        v.open_claims[k].asset,
    ) by {
        assert(v.claim_ok(k));
        assert(n.registry.has_token(v.open_claims[k].asset));
    }
    lemma_claims_frame(v, n);
    assert forall|b: Asset| #[trigger]
        n.owns(n.config.escrow_account, b) && b != a implies n.is_listed(b) by {
        assert(v.owns(v.config.escrow_account, b));
    }
    assert forall|b: Asset| #[trigger]
        n.owns(n.config.claim_account, b) && b != a implies n.is_claimed(b) by {
        assert(v.owns(v.config.claim_account, b));
    }
}

/// Changing the holder of an unlocked asset to an account other than a custody account,
/// or destroying it, keeps the invariant.
pub(crate) proof fn lemma_wf_registry_change(v: WalletView, n: WalletView, a: Asset)
    requires
        v.wf(),
        !v.is_locked(a),
        n == (WalletView { registry: n.registry, ..v }),
        n.registry.wf(),
        forall|b: Asset|
            b != a ==> #[trigger] n.registry.has_token(b) == v.registry.has_token(b)
                && n.registry.owners[asset_key(b)] == v.registry.owners[asset_key(b)],
        !n.owns(v.config.escrow_account, a),
        !n.owns(v.config.claim_account, a),
    ensures
        n.wf(),
{
    lemma_wf_registry_change_core(v, n, a);
}

/// Moving an asset keeps every other asset where it was.
pub(crate) proof fn lemma_moved_elsewhere(r: RegistryView, a: Asset, to: AccountId)
    requires
        r.wf(),
        r.has_token(a),
    ensures
        r.moved(a, to).wf(),
        forall|b: Asset|
            b != a ==> #[trigger] r.moved(a, to).has_token(b) == r.has_token(b)
                && r.moved(a, to).owners[asset_key(b)] == r.owners[asset_key(b)],
        r.moved(a, to).owner_is(a, to),
{
    assert forall|b: Asset| b != a implies #[trigger] r.moved(a, to).has_token(b) == r.has_token(b)
        && r.moved(a, to).owners[asset_key(b)] == r.owners[asset_key(b)] by {
        crate::types::lemma_asset_key_injective(a, b);
    }
    assert forall|b: Asset| #[trigger] r.moved(a, to).has_token(b) implies r.moved(
        a,
        to,
    ).classes.contains_key(b.0) && b.1 < r.moved(a, to).classes[b.0].next_token_id by {
        crate::types::lemma_asset_key_injective(a, b);
        assert(r.has_token(b));
    }
}

/// A holder of an unlocked asset is no custody account.
proof fn lemma_holder_not_custody(v: WalletView, who: AccountId, a: Asset)
    requires
        v.wf(),
        v.owns(who, a),
        !v.is_locked(a),
    ensures
        !v.is_custody(who),
{
    if who == v.config.escrow_account {
        assert(v.owns(v.config.escrow_account, a));
    }
    if who == v.config.claim_account {
        assert(v.owns(v.config.claim_account, a));
    }
}

/// Listing an unlocked asset keeps the invariant.
pub(crate) proof fn lemma_listed_wf(v: WalletView, caller: AccountId, a: Asset, price: Balance)
    requires
        v.wf(),
        v.list_error(caller, a) is None,
    ensures
        v.listed(caller, a, price).wf(),
{
    let e = v.config.escrow_account;
    let c = v.config.claim_account;
    let n = v.listed(caller, a, price);
    let id = v.next_listing_id;
    let s = v.owner_listing_ids(caller);
    lemma_holder_not_custody(v, caller, a);
    lemma_moved_elsewhere(v.registry, a, e);
    lemma_push_contains(v.all_listings, a);
    lemma_push_unique(v.all_listings, a);
    assert(!s.contains(id)) by {
        if s.contains(id) {
            assert(v.listings.contains_key(id));
            assert(v.listing_ok(id));
        }
    }
    lemma_push_unique(s, id);
    lemma_push_contains(s, id);
    assert forall|o: AccountId| #[trigger]
        n.owner_listing_ids(o) == (if o == caller {
            s.push(id)
        } else {
            v.owner_listing_ids(o)
        }) by {}
    assert forall|i: ListingId| #[trigger] n.listings.contains_key(i) implies n.listing_ok(i) by {
        if i != id {
            let m = v.listings[i];
            assert(v.listings.contains_key(i));
            assert(v.listing_ok(i));
            assert(m.asset != a);
            assert(n.owner_listing_ids(m.seller).contains(i));
        }
    }
    assert forall|i: ListingId, j: ListingId|
        #![trigger n.listings[i], n.listings[j]]
        n.listings.contains_key(i) && n.listings.contains_key(j) && n.listings[i].asset
            == n.listings[j].asset implies i == j by {
        if i != id {
            assert(v.listings.contains_key(i));
            assert(v.listing_ok(i));
        }
        if j != id {
            assert(v.listings.contains_key(j));
            assert(v.listing_ok(j));
        }
    }
    assert forall|o: AccountId, j: ListingId| #[trigger]
        n.owner_listing_ids(o).contains(j) implies n.listings.contains_key(j)
        && n.listings[j].seller == o by {
        if o == caller {
            if j != id {
                assert(s.contains(j));
            }
        } else {
            assert(v.owner_listing_ids(o).contains(j));
            assert(v.listing_ok(j));
        }
    }
    assert forall|o: AccountId| #[trigger] n.owner_listing_ids(o).no_duplicates() by {
        assert(v.owner_listing_ids(o).no_duplicates());
    }
    assert forall|b: Asset| #[trigger] n.is_listed(b) implies n.listing_for(b) by {
        if b == a {
            assert(n.listings.contains_key(id));
        } else {
            assert(v.is_listed(b));
            assert(v.listing_for(b));
            let j = choose|j: ListingId| #[trigger]
                v.listings.contains_key(j) && v.listings[j].asset == b;
            assert(n.listings.contains_key(j));
        }
    }
    assert(n.listings_wf());
    assert forall|k: ClaimId| #[trigger] v.open_claims.contains_key(k) implies n.owns(
        c,
        v.open_claims[k].asset,
    ) by {
        assert(v.claim_ok(k));
        assert(v.is_claimed(v.open_claims[k].asset));
    }
    lemma_claims_frame(v, n);
    assert forall|b: Asset| !(#[trigger] n.is_listed(b) && n.is_claimed(b)) by {
        if n.is_listed(b) && b != a {
            assert(v.is_listed(b));
        }
    }
    assert forall|b: Asset| #[trigger] n.owns(e, b) implies n.is_listed(b) by {
        if b != a {
            assert(v.owns(e, b));
        }
    }
    assert forall|b: Asset| #[trigger] n.owns(c, b) implies n.is_claimed(b) by {
        if b != a {
            assert(v.owns(c, b));
        }
    }
}

/// Pledging an unlocked asset to an account other than a custody account keeps the
/// invariant.
pub(crate) proof fn lemma_claim_created_wf(
    v: WalletView,
    caller: AccountId,
    receiver: AccountId,
    a: Asset,
)
    requires
        v.wf(),
        v.create_claim_error(caller, receiver, a) is None,
    ensures
        v.claim_created(receiver, a).wf(),
{
    let e = v.config.escrow_account;
    let c = v.config.claim_account;
    let n = v.claim_created(receiver, a);
    let id = v.next_claim_id;
    lemma_moved_elsewhere(v.registry, a, c);
    lemma_push_contains(v.all_claims, a);
    lemma_push_unique(v.all_claims, a);
    assert forall|i: ListingId| #[trigger] v.listings.contains_key(i) implies n.owns(
        e,
        v.listings[i].asset,
    ) by {
        assert(v.listing_ok(i));
        assert(v.is_listed(v.listings[i].asset));
    }
    lemma_listings_frame(v, n);
    assert forall|k: ClaimId| #[trigger] n.open_claims.contains_key(k) implies n.claim_ok(k) by {
        if k != id {
            assert(v.open_claims.contains_key(k));
            assert(v.claim_ok(k));
            assert(v.open_claims[k].asset != a);
        }
    }
    assert forall|i: ClaimId, j: ClaimId|
        #![trigger n.open_claims[i], n.open_claims[j]]
        n.open_claims.contains_key(i) && n.open_claims.contains_key(j) && n.open_claims[i].asset
            == n.open_claims[j].asset implies i == j by {
        if i != id {
            assert(v.open_claims.contains_key(i));
            assert(v.claim_ok(i));
        }
        if j != id {
            assert(v.open_claims.contains_key(j));
            assert(v.claim_ok(j));
        }
    }
    assert forall|b: Asset| #[trigger] n.is_claimed(b) implies n.claim_for(b) by {
        if b == a {
            assert(n.open_claims.contains_key(id));
        } else {
            assert(v.is_claimed(b));
            assert(v.claim_for(b));
            let j = choose|j: ClaimId| #[trigger]
                v.open_claims.contains_key(j) && v.open_claims[j].asset == b;
            assert(n.open_claims.contains_key(j));
        }
    }
    assert(n.claims_wf());
    assert forall|b: Asset| !(#[trigger] n.is_listed(b) && n.is_claimed(b)) by {
        if n.is_claimed(b) && b != a {
            assert(v.is_claimed(b));
        }
    }
    assert forall|b: Asset| #[trigger] n.owns(e, b) implies n.is_listed(b) by {
        if b != a {
            assert(v.owns(e, b));
        }
    }
    assert forall|b: Asset| #[trigger] n.owns(c, b) implies n.is_claimed(b) by {
        if b != a {
            assert(v.owns(c, b));
        }
    }
}

/// Taking a claim keeps the invariant.
pub(crate) proof fn lemma_claimed_wf(v: WalletView, id: ClaimId)
    requires
        v.wf(),
        v.open_claims.contains_key(id),
    ensures
        v.claimed(id).wf(),
{
    let cl = v.open_claims[id];
    let n = v.claimed(id);
    let e = v.config.escrow_account;
    let c = v.config.claim_account;
    assert(v.claim_ok(id));
    assert(v.registry.has_token(cl.asset));
    lemma_moved_elsewhere(v.registry, cl.asset, cl.receiver);
    lemma_remove_all_unique(v.all_claims, cl.asset);
    lemma_remove_all_contains(v.all_claims, cl.asset);
    assert forall|i: ListingId| #[trigger] v.listings.contains_key(i) implies n.owns(
        e,
        v.listings[i].asset,
    ) by {
        assert(v.listing_ok(i));
        assert(!v.is_claimed(v.listings[i].asset));
    }
    lemma_listings_frame(v, n);
    assert forall|k: ClaimId| #[trigger] n.open_claims.contains_key(k) implies n.claim_ok(k) by {
        assert(v.open_claims.contains_key(k));
        assert(v.claim_ok(k));
        assert(v.open_claims[k].asset != cl.asset);
    }
    assert forall|b: Asset| #[trigger] n.is_claimed(b) implies n.claim_for(b) by {
        assert(v.is_claimed(b));
        assert(v.claim_for(b));
        let j = choose|j: ClaimId| #[trigger]
            v.open_claims.contains_key(j) && v.open_claims[j].asset == b;
        assert(n.open_claims.contains_key(j));
    }
    assert(n.claims_wf());
    assert forall|b: Asset| !(#[trigger] n.is_listed(b) && n.is_claimed(b)) by {
        if n.is_claimed(b) {
            assert(v.is_claimed(b));
        }
    }
    assert forall|b: Asset| #[trigger] n.owns(e, b) implies n.is_listed(b) by {
        if b != cl.asset {
            assert(v.owns(e, b));
        }
    }
    assert forall|b: Asset| #[trigger] n.owns(c, b) implies n.is_claimed(b) by {
        if b != cl.asset {
            assert(v.owns(c, b));
        }
    }
}

/// Changing the classes of the registry, and nothing else, keeps the invariant.
pub(crate) proof fn lemma_wf_registry_classes(v: WalletView, n: WalletView)
    requires
        v.wf(),
        n.config == v.config,
        n.registry.owners == v.registry.owners,
        n.registry.wf(),
        n.listings == v.listings,
        n.listings_by_owner == v.listings_by_owner,
        n.all_listings == v.all_listings,
        n.next_listing_id == v.next_listing_id,
        n.listing_count == v.listing_count,
        n.open_claims == v.open_claims,
        n.all_claims == v.all_claims,
        n.next_claim_id == v.next_claim_id,
    ensures
        n.wf(),
{
    assert forall|i: ListingId| #[trigger] v.listings.contains_key(i) implies n.owns(
        n.config.escrow_account,
        v.listings[i].asset,
    ) by {
        assert(v.listing_ok(i));
    }
    lemma_listings_frame(v, n);
    assert forall|k: ClaimId| #[trigger] v.open_claims.contains_key(k) implies n.owns(
        n.config.claim_account,
        v.open_claims[k].asset,
    ) by {
        assert(v.claim_ok(k));
    }
    lemma_claims_frame(v, n);
    assert forall|b: Asset| #[trigger] n.owns(n.config.escrow_account, b) implies n.is_listed(b) by {
        assert(v.owns(v.config.escrow_account, b));
    }
    assert forall|b: Asset| #[trigger] n.owns(n.config.claim_account, b) implies n.is_claimed(b) by {
        assert(v.owns(v.config.claim_account, b));
    }
}

} // verus!
