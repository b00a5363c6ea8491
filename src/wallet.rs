use std::collections::{HashMap, HashSet};
use vstd::prelude::*;

use crate::emoji::{emoji_for, lookup_emoji};
use crate::ledger::{Ledger, LedgerView};
use crate::registry::{ClassInfo, Registry, RegistryView};
use crate::custody_proofs::{
    lemma_claim_created_wf, lemma_claimed_wf, lemma_listed_wf, lemma_moved_elsewhere,
    lemma_unlisted_wf, lemma_wf_registry_change, lemma_wf_registry_classes, lemma_wf_same_custody,
};
use crate::seqs::{
    copy_assets, copy_ids, lemma_push_contains, lemma_remove_all_contains, remove_all,
    remove_asset, remove_id,
};
use crate::types::{
    asset_key, key_of, AccountId, Asset, Balance, BlockNumber, Claim, ClaimId, ClassId, Error,
    Event, Listing, ListingId, Order, TokenId,
};

verus! {

broadcast use vstd::std_specs::hash::group_hash_axioms;

/// The wallet's fixed settings: which operations are enabled, and the two custody accounts.
#[derive(Clone, Copy, Debug, PartialEq, Eq, Structural)]
pub struct WalletConfig {
    pub allow_transfer: bool,
    pub allow_burn: bool,
    pub allow_escrow: bool,
    pub allow_claim: bool,
    /// Holds every listed asset.
    pub escrow_account: AccountId,
    /// Holds every claimed asset.
    pub claim_account: AccountId,
}

/// An emote posted on an asset.
pub struct EmoteRecord {
    pub asset: Asset,
    pub poster: AccountId,
    pub emoji: Vec<u8>,
}

/// A decision on a claim, made before the asset leaves claim custody.
pub trait OnClaimHandler {
    /// `Ok` lets `receiver` take `asset`; an error vetoes the claim.
    fn claim(&self, receiver: AccountId, asset: Asset) -> Result<(), Error>;
}

/// A claim handler that approves every claim.
pub struct ApproveClaims;

impl OnClaimHandler for ApproveClaims {
    fn claim(&self, _receiver: AccountId, _asset: Asset) -> Result<(), Error> {
        Ok(())
    }
}

/// The custody ledger: the asset registry, the currency ledger, and the listings and
/// claims that lock assets in custody.
pub struct Module {
    config: WalletConfig,
    registry: Registry,
    ledger: Ledger,
    listings: HashMap<ListingId, Listing>,
    listings_by_owner: HashMap<AccountId, Vec<ListingId>>,
    all_listings: Vec<Asset>,
    next_listing_id: ListingId,
    listing_count: u64,
    order_count: u64,
    order_history: HashMap<u128, Order>,
    open_claims: HashMap<ClaimId, Claim>,
    all_claims: Vec<Asset>,
    next_claim_id: ClaimId,
    /// The `asset_key` of every listed or claimed asset, for constant-time lock checks.
    locked: HashSet<u128>,
    events: Vec<Event>,
    emotes: Vec<EmoteRecord>,
    block_number: BlockNumber,
}

/// The wallet's abstract state.
pub ghost struct WalletView {
    pub config: WalletConfig,
    pub registry: RegistryView,
    pub ledger: LedgerView,
    /// Active listings by id.
    pub listings: Map<ListingId, Listing>,
    /// The ids of each seller's listings.
    pub listings_by_owner: Map<AccountId, Seq<ListingId>>,
    /// The assets of all active listings, oldest first.
    pub all_listings: Seq<Asset>,
    pub next_listing_id: ListingId,
    pub listing_count: u64,
    pub order_count: u64,
    /// The last sale of each asset, by `asset_key`.
    pub order_history: Map<u128, Order>,
    /// Open claims by id.
    pub open_claims: Map<ClaimId, Claim>,
    /// The assets of all open claims, oldest first.
    pub all_claims: Seq<Asset>,
    pub next_claim_id: ClaimId,
    /// The events of the operations that took place, oldest first.
    pub events: Seq<Event>,
    /// Posted emotes, oldest first: asset, poster and emoji.
    pub emotes: Seq<(Asset, AccountId, Seq<u8>)>,
    pub block_number: BlockNumber,
}

/// The emojis that `who` posted on `asset`, oldest first.
pub open spec fn emotes_of(s: Seq<(Asset, AccountId, Seq<u8>)>, asset: Asset, who: AccountId) -> Seq<
    Seq<u8>,
>
    decreases s.len(),
{
    if s.len() == 0 {
        Seq::empty()
    } else {
        let r = emotes_of(s.drop_last(), asset, who);
        if s.last().0 == asset && s.last().1 == who {
            r.push(s.last().2)
        } else {
            r
        }
    }
}

/// The next ids never go back.
pub open spec fn ids_advance(pre: WalletView, post: WalletView) -> bool {
    &&& pre.next_listing_id <= post.next_listing_id
    &&& pre.next_claim_id <= post.next_claim_id
}

/// What `buy` promises: on an error nothing changes; otherwise the sale took place.
pub open spec fn buy_result(
    pre: WalletView,
    caller: AccountId,
    id: ListingId,
    r: Result<(), Error>,
    post: WalletView,
) -> bool {
    match pre.buy_error(caller, id) {
        Some(e) => r == Err::<(), Error>(e) && post == pre,
        None => r is Ok && post == pre.bought(caller, id),
    }
}

impl WalletView {
    /// `who` is the escrow account or the claim account.
    pub open spec fn is_custody(self, who: AccountId) -> bool {
        who == self.config.escrow_account || who == self.config.claim_account
    }

    pub open spec fn owns(self, who: AccountId, a: Asset) -> bool {
        self.registry.owner_is(a, who)
    }

    /// `a` is in the listing index.
    pub open spec fn is_listed(self, a: Asset) -> bool {
        self.all_listings.contains(a)
    }

    /// `a` is in the claim index.
    pub open spec fn is_claimed(self, a: Asset) -> bool {
        self.all_claims.contains(a)
    }

    pub open spec fn is_locked(self, a: Asset) -> bool {
        self.is_listed(a) || self.is_claimed(a)
    }

    /// Some active listing offers `a`.
    pub open spec fn listing_for(self, a: Asset) -> bool {
        exists|id: ListingId| #[trigger]
            self.listings.contains_key(id) && self.listings[id].asset == a
    }

    /// Some open claim pledges `a`.
    pub open spec fn claim_for(self, a: Asset) -> bool {
        exists|c: ClaimId| #[trigger]
            self.open_claims.contains_key(c) && self.open_claims[c].asset == a
    }

    /// The ids of `who`'s listings; none where `who` never listed.
    pub open spec fn owner_listing_ids(self, who: AccountId) -> Seq<ListingId> {
        if self.listings_by_owner.contains_key(who) {
            self.listings_by_owner[who]
        } else {
            Seq::empty()
        }
    }

    /// What holds of active listing `id`.
    pub open spec fn listing_ok(self, id: ListingId) -> bool {
        let l = self.listings[id];
        &&& l.id == id
        &&& id < self.next_listing_id
        &&& self.is_listed(l.asset)
        &&& self.listings_by_owner.contains_key(l.seller)
        &&& self.owner_listing_ids(l.seller).contains(id)
        &&& !self.is_custody(l.seller)
        &&& self.owns(self.config.escrow_account, l.asset)
    }

    /// What holds of open claim `c`.
    pub open spec fn claim_ok(self, c: ClaimId) -> bool {
        let cl = self.open_claims[c];
        &&& c < self.next_claim_id
        &&& self.is_claimed(cl.asset)
        &&& !self.is_custody(cl.receiver)
        &&& self.owns(self.config.claim_account, cl.asset)
    }

    /// The listings: each active listing is in the listing index and in its seller's id
    /// list, which holds exactly the seller's active listings, once each.
    pub open spec fn listings_wf(self) -> bool {
        &&& self.all_listings.no_duplicates()
        &&& self.listing_count == self.all_listings.len()
        &&& forall|id: ListingId| #[trigger]
            self.listings.contains_key(id) ==> self.listing_ok(id)
        &&& forall|o: AccountId, id: ListingId| #[trigger]
            self.owner_listing_ids(o).contains(id) ==> self.listings.contains_key(id)
                && self.listings[id].seller == o
        &&& forall|o: AccountId| #[trigger] self.owner_listing_ids(o).no_duplicates()
        &&& forall|i: ListingId, j: ListingId|
            #![trigger self.listings[i], self.listings[j]]
            self.listings.contains_key(i) && self.listings.contains_key(j) && self.listings[i].asset
                == self.listings[j].asset ==> i == j
        &&& forall|a: Asset| #[trigger] self.is_listed(a) ==> self.listing_for(a)
    }

    pub open spec fn claims_wf(self) -> bool {
        &&& self.all_claims.no_duplicates()
        &&& forall|c: ClaimId| #[trigger]
            self.open_claims.contains_key(c) ==> self.claim_ok(c)
        &&& forall|i: ClaimId, j: ClaimId|
            #![trigger self.open_claims[i], self.open_claims[j]]
            self.open_claims.contains_key(i) && self.open_claims.contains_key(j)
                && self.open_claims[i].asset == self.open_claims[j].asset ==> i == j
        &&& forall|a: Asset| #[trigger] self.is_claimed(a) ==> self.claim_for(a)
    }

    /// The state after listing `id` ends and its asset leaves escrow for `to`.
    pub open spec fn unlisted(self, id: ListingId, to: AccountId) -> WalletView {
        let l = self.listings[id];
        WalletView {
            registry: self.registry.moved(l.asset, to),
            listings: self.listings.remove(id),
            listings_by_owner: self.listings_by_owner.insert(
                l.seller,
                remove_all(self.owner_listing_ids(l.seller), id),
            ),
            all_listings: remove_all(self.all_listings, l.asset),
            listing_count: (self.listing_count - 1) as u64,
            ..self
        }
    }

    /// Why `caller` may not end listing `id`, if it may not.
    pub open spec fn unlist_error(self, caller: AccountId, id: ListingId) -> Option<Error> {
        if !self.config.allow_escrow {
            Some(Error::EscrowNotAllowed)
        } else if !self.listings.contains_key(id) {
            Some(Error::ListingNotFound)
        } else if self.listings[id].seller != caller {
            Some(Error::NoPermission)
        } else {
            None
        }
    }

    /// Why `caller` may not buy listing `id`, if it may not.
    pub open spec fn buy_error(self, caller: AccountId, id: ListingId) -> Option<Error> {
        if !self.config.allow_escrow {
            Some(Error::EscrowNotAllowed)
        } else if !self.listings.contains_key(id) {
            Some(Error::ListingNotFound)
        } else if self.is_custody(caller) {
            Some(Error::CustodyAccount)
        } else if self.order_count == u64::MAX {
            Some(Error::NoAvailableOrderId)
        } else {
            self.ledger.payment_error(caller, self.listings[id].seller, self.listings[id].price)
        }
    }

    /// The state after `caller` buys listing `id`: the price goes to the seller, the asset
    /// to `caller`, and the sale is recorded as the asset's last.
    pub open spec fn bought(self, caller: AccountId, id: ListingId) -> WalletView {
        let l = self.listings[id];
        WalletView {
            ledger: self.ledger.paid(caller, l.seller, l.price),
            order_count: (self.order_count + 1) as u64,
            order_history: self.order_history.insert(
                asset_key(l.asset),
                Order { listing: l, buyer: caller, block: self.block_number },
            ),
            events: self.events.push(
                Event::WalletAssetPurchased(l.seller, caller, l.asset.0, l.asset.1),
            ).push(Event::WalletAssetBuySuccess(l.seller, caller, id, l.price)),
            ..self.unlisted(id, caller)
        }
    }

    /// Why `caller` may not move or destroy `a` while `enabled` says whether the operation
    /// is on, if it may not.
    pub open spec fn holder_error(self, caller: AccountId, a: Asset, enabled: bool, off: Error) -> Option<
        Error,
    > {
        if !enabled {
            Some(off)
        } else if self.is_locked(a) {
            Some(Error::AssetLocked)
        } else if !self.owns(caller, a) {
            Some(Error::NoPermission)
        } else {
            None
        }
    }

    /// Why `caller` may not move `a` to `to`, if it may not.
    pub open spec fn transfer_error(self, caller: AccountId, to: AccountId, a: Asset) -> Option<
        Error,
    > {
        if self.holder_error(caller, a, self.config.allow_transfer, Error::TransfersNotAllowed) is Some {
            self.holder_error(caller, a, self.config.allow_transfer, Error::TransfersNotAllowed)
        } else if self.is_custody(to) {
            Some(Error::CustodyAccount)
        } else {
            None
        }
    }

    pub open spec fn burn_error(self, caller: AccountId, a: Asset) -> Option<Error> {
        self.holder_error(caller, a, self.config.allow_burn, Error::BurningNotAllowed)
    }

    /// The state after `a` is destroyed.
    pub open spec fn burned(self, a: Asset) -> WalletView {
        WalletView {
            registry: RegistryView { owners: self.registry.owners.remove(asset_key(a)), ..self.registry },
            ..self
        }
    }

    /// Why `caller` may not list `a`, if it may not.
    pub open spec fn list_error(self, caller: AccountId, a: Asset) -> Option<Error> {
        if self.holder_error(caller, a, self.config.allow_escrow, Error::EscrowNotAllowed) is Some {
            self.holder_error(caller, a, self.config.allow_escrow, Error::EscrowNotAllowed)
        } else if self.next_listing_id == ListingId::MAX || self.listing_count == u64::MAX {
            Some(Error::NoAvailableListingId)
        } else {
            None
        }
    }

    /// The state after `caller` lists `a` at `price`: the asset goes into escrow and a
    /// listing with the next id records the offer.
    pub open spec fn listed(self, caller: AccountId, a: Asset, price: Balance) -> WalletView {
        let id = self.next_listing_id;
        WalletView {
            registry: self.registry.moved(a, self.config.escrow_account),
            listings: self.listings.insert(id, Listing { id, seller: caller, asset: a, price }),
            listings_by_owner: self.listings_by_owner.insert(
                caller,
                self.owner_listing_ids(caller).push(id),
            ),
            all_listings: self.all_listings.push(a),
            next_listing_id: (id + 1) as ListingId,
            listing_count: (self.listing_count + 1) as u64,
            ..self
        }
    }

    /// Why `caller` may not pledge `a` to `receiver`, if it may not: besides holding the
    /// asset, `caller` must administer its class, and the receiver may not be a custody
    /// account.
    pub open spec fn create_claim_error(self, caller: AccountId, receiver: AccountId, a: Asset) -> Option<
        Error,
    > {
        if self.holder_error(caller, a, self.config.allow_claim, Error::ClaimingNotAllowed) is Some {
            self.holder_error(caller, a, self.config.allow_claim, Error::ClaimingNotAllowed)
        } else if !self.registry.classes.contains_key(a.0) {
            Some(Error::AssetNotFound)
        } else if self.registry.classes[a.0].owner != caller {
            Some(Error::NoPermission)
        } else if self.is_custody(receiver) {
            Some(Error::CustodyAccount)
        } else if self.next_claim_id == ClaimId::MAX {
            Some(Error::NoAvailableClaimId)
        } else {
            None
        }
    }

    /// The state after `a` is pledged to `receiver`: the asset goes into claim custody and
    /// a claim with the next id records the pledge.
    pub open spec fn claim_created(self, receiver: AccountId, a: Asset) -> WalletView {
        let id = self.next_claim_id;
        WalletView {
            registry: self.registry.moved(a, self.config.claim_account),
            open_claims: self.open_claims.insert(id, Claim { receiver, asset: a }),
            all_claims: self.all_claims.push(a),
            next_claim_id: (id + 1) as ClaimId,
            ..self
        }
    }

    /// Why `caller` may not take claim `id`, if it may not, before any hook is asked.
    pub open spec fn claim_error(self, caller: AccountId, id: ClaimId) -> Option<Error> {
        if !self.config.allow_claim {
            Some(Error::ClaimingNotAllowed)
        } else if !self.open_claims.contains_key(id) || self.open_claims[id].receiver != caller {
            Some(Error::ClaimNotFound)
        } else {
            None
        }
    }

    /// The state after claim `id` is taken: the asset leaves claim custody for the receiver.
    pub open spec fn claimed(self, id: ClaimId) -> WalletView {
        let c = self.open_claims[id];
        WalletView {
            registry: self.registry.moved(c.asset, c.receiver),
            open_claims: self.open_claims.remove(id),
            all_claims: remove_all(self.all_claims, c.asset),
            ..self
        }
    }

    /// The state after `who` posts `emoji` on `asset`.
    pub open spec fn emote_posted(self, who: AccountId, asset: Asset, emoji: Seq<u8>) -> WalletView {
        WalletView { emotes: self.emotes.push((asset, who, emoji)), ..self }
    }

    /// The state with `e` reported.
    pub open spec fn with_event(self, e: Event) -> WalletView {
        WalletView { events: self.events.push(e), ..self }
    }

    /// The state after `caller` moves `a` to `to`.
    pub open spec fn after_transfer(self, caller: AccountId, to: AccountId, a: Asset) -> WalletView {
        WalletView { registry: self.registry.moved(a, to), ..self }.with_event(
            Event::WalletAssetTransferred(caller, to, a.0, a.1),
        )
    }

    /// The state after `caller` destroys `a`.
    pub open spec fn after_burn(self, caller: AccountId, a: Asset) -> WalletView {
        self.burned(a).with_event(Event::WalletAssetBurned(caller, a.0, a.1))
    }

    /// The state after `caller` lists `a` at `price`.
    pub open spec fn after_list(self, caller: AccountId, a: Asset, price: Balance) -> WalletView {
        self.listed(caller, a, price).with_event(
            Event::WalletAssetListed(caller, price, self.next_listing_id, a.0, a.1),
        )
    }

    /// The state after `caller` ends listing `id`.
    pub open spec fn after_unlist(self, caller: AccountId, id: ListingId) -> WalletView {
        let a = self.listings[id].asset;
        self.unlisted(id, caller).with_event(Event::WalletAssetUnlisted(caller, id, a.0, a.1))
    }

    /// The state after `caller` pledges `a` to `receiver`.
    pub open spec fn after_create_claim(self, caller: AccountId, receiver: AccountId, a: Asset) -> WalletView {
        self.claim_created(receiver, a).with_event(
            Event::WalletClaimCreated(caller, receiver, a.0, a.1),
        )
    }

    /// The state after claim `id` is taken.
    pub open spec fn after_claim(self, id: ClaimId) -> WalletView {
        let c = self.open_claims[id];
        self.claimed(id).with_event(Event::WalletAssetClaimed(c.receiver, c.asset.0, c.asset.1))
    }

    /// The wallet's invariant.
    pub open spec fn wf(self) -> bool {
        &&& self.wf_core()
        &&& self.custody_wf()
    }

    /// The invariant but for what the custody accounts hold.
    pub open spec fn wf_core(self) -> bool {
        &&& self.registry.wf()
        &&& self.listings_wf()
        &&& self.claims_wf()
        &&& forall|a: Asset| !(#[trigger] self.is_listed(a) && self.is_claimed(a))
        &&& self.config.escrow_account != self.config.claim_account
    }

    /// Each custody account holds only what is locked in it.
    pub open spec fn custody_wf(self) -> bool {
        &&& forall|a: Asset| #[trigger]
            self.owns(self.config.escrow_account, a) ==> self.is_listed(a)
        &&& forall|a: Asset| #[trigger]
            self.owns(self.config.claim_account, a) ==> self.is_claimed(a)
    }
}

impl View for Module {
    type V = WalletView;

    closed spec fn view(&self) -> WalletView {
        WalletView {
            config: self.config,
            registry: self.registry@,
            ledger: self.ledger@,
            listings: self.listings@,
            listings_by_owner: self.listings_by_owner@.map_values(|v: Vec<ListingId>| v@),
            all_listings: self.all_listings@,
            next_listing_id: self.next_listing_id,
            listing_count: self.listing_count,
            order_count: self.order_count,
            order_history: self.order_history@,
            open_claims: self.open_claims@,
            all_claims: self.all_claims@,
            next_claim_id: self.next_claim_id,
            events: self.events@,
            emotes: self.emotes@.map_values(|e: EmoteRecord| (e.asset, e.poster, e.emoji@)),
            block_number: self.block_number,
        }
    }
}

impl Module {
    /// The invariant: that of the abstract state, and a lock set that holds the key of
    /// exactly the locked assets.
    pub closed spec fn wf(&self) -> bool {
        &&& self@.wf()
        &&& forall|a: Asset|
            #![trigger self@.is_locked(a)]
            #![trigger self.locked@.contains(asset_key(a))]
            self.locked@.contains(asset_key(a)) == self@.is_locked(a)
    }

    /// A wallet with an empty registry, an empty ledger and no listings or claims.
    pub fn new(config: WalletConfig, existential_deposit: Balance) -> (r: Module)
        requires
            config.escrow_account != config.claim_account,
        ensures
            r.wf(),
            r@.config == config,
            r@.registry.classes.is_empty(),
            r@.registry.owners.is_empty(),
            r@.registry.next_class_id == 0,
            r@.ledger.balances.is_empty(),
            r@.ledger.existential_deposit == existential_deposit,
            r@.listings.is_empty(),
            r@.listings_by_owner.is_empty(),
            r@.all_listings.len() == 0,
            r@.next_listing_id == 0,
            r@.listing_count == 0,
            r@.order_count == 0,
            r@.order_history.is_empty(),
            r@.open_claims.is_empty(),
            r@.all_claims.len() == 0,
            r@.next_claim_id == 0,
            r@.events.len() == 0,
            r@.emotes.len() == 0,
            r@.block_number == 0,
    {
        let w = Module {
            config,
            registry: Registry::new(),
            ledger: Ledger::new(existential_deposit),
            listings: HashMap::new(),
            listings_by_owner: HashMap::new(),
            all_listings: Vec::new(),
            next_listing_id: 0,
            listing_count: 0,
            order_count: 0,
            order_history: HashMap::new(),
            open_claims: HashMap::new(),
            all_claims: Vec::new(),
            next_claim_id: 0,
            locked: HashSet::new(),
            events: Vec::new(),
            emotes: Vec::new(),
            block_number: 0,
        };
        assert(w@.listings_by_owner =~= Map::<AccountId, Seq<ListingId>>::empty());
        assert(w@.emotes =~= Seq::<(Asset, AccountId, Seq<u8>)>::empty());
        w
    }

    /// Reports `e`.
    fn emit(&mut self, e: Event)
        requires
            old(self).wf(),
        ensures
            final(self).wf(),
            final(self)@ == old(self)@.with_event(e),
    {
        let ghost pre = self@;
        self.events.push(e);
        proof {
            lemma_wf_same_custody(pre, self@);
        }
    }

    /// The events reported so far, oldest first.
    pub fn events(&self) -> (r: Vec<Event>)
        ensures
            r@ == self@.events,
    {
        let mut r: Vec<Event> = Vec::new();
        let mut i: usize = 0;
        while i < self.events.len()
            invariant
                i <= self.events.len(),
                r@ == self@.events.subrange(0, i as int),
            decreases self.events.len() - i,
        {
            r.push(self.events[i]);
            i = i + 1;
        }
        r
    }

    /// Whether `who` is the escrow account or the claim account.
    pub fn is_custody(&self, who: AccountId) -> (r: bool)
        ensures
            r == self@.is_custody(who),
    {
        who == self.config.escrow_account || who == self.config.claim_account
    }

    /// Whether `asset` is listed or claimed.
    pub fn is_locked(&self, asset: Asset) -> (r: bool)
        requires
            self.wf(),
        ensures
            r == self@.is_locked(asset),
    {
        self.locked.contains(&key_of(asset))
    }

    /// Checks that `caller` may act on `asset` as its holder: the operation is `enabled`,
    /// the asset is not locked, and `caller` holds it.
    fn check_holder(&self, caller: AccountId, asset: Asset, enabled: bool, off: Error) -> (r: Result<
        (),
        Error,
    >)
        requires
            self.wf(),
        ensures
            match self@.holder_error(caller, asset, enabled, off) {
                Some(e) => r == Err::<(), Error>(e),
                None => r is Ok,
            },
    {
        if !enabled {
            return Err(off);
        }
        if self.is_locked(asset) {
            return Err(Error::AssetLocked);
        }
        if !self.registry.is_owner(caller, asset) {
            return Err(Error::NoPermission);
        }
        Ok(())
    }

    /// Moves `asset`, which `caller` holds and which is not locked, to `to`.
    pub fn transfer(&mut self, caller: AccountId, to: AccountId, asset: Asset) -> (r: Result<
        (),
        Error,
    >)
        requires
            old(self).wf(),
        ensures
            final(self).wf(),
            ids_advance(old(self)@, final(self)@),
            match old(self)@.transfer_error(caller, to, asset) {
                Some(e) => r == Err::<(), Error>(e) && final(self)@ == old(self)@,
                None => r is Ok && final(self)@ == old(self)@.after_transfer(caller, to, asset),
            },
    {
        self.check_holder(caller, asset, self.config.allow_transfer, Error::TransfersNotAllowed)?;
        if self.is_custody(to) {
            return Err(Error::CustodyAccount);
        }
        proof {
            lemma_moved_elsewhere(self@.registry, asset, to);
            lemma_wf_registry_change(
                self@,
                WalletView { registry: self@.registry.moved(asset, to), ..self@ },
                asset,
            );
        }
        let moved = self.registry.transfer(caller, to, asset);
        assert(moved is Ok);
        self.emit(Event::WalletAssetTransferred(caller, to, asset.0, asset.1));
        Ok(())
    }

    /// Destroys `asset`, which `caller` holds and which is not locked.
    pub fn burn(&mut self, caller: AccountId, asset: Asset) -> (r: Result<(), Error>)
        requires
            old(self).wf(),
        ensures
            final(self).wf(),
            ids_advance(old(self)@, final(self)@),
            match old(self)@.burn_error(caller, asset) {
                Some(e) => r == Err::<(), Error>(e) && final(self)@ == old(self)@,
                None => r is Ok && final(self)@ == old(self)@.after_burn(caller, asset),
            },
    {
        self.check_holder(caller, asset, self.config.allow_burn, Error::BurningNotAllowed)?;
        let ghost pre = self@;
        let burned = self.registry.burn(caller, asset);
        assert(burned is Ok);
        proof {
            assert forall|b: Asset| b != asset implies #[trigger] self@.registry.has_token(b)
                == pre.registry.has_token(b) && self@.registry.owners[asset_key(b)]
                == pre.registry.owners[asset_key(b)] by {
                crate::types::lemma_asset_key_injective(asset, b);
            }
            lemma_wf_registry_change(pre, self@, asset);
        }
        self.emit(Event::WalletAssetBurned(caller, asset.0, asset.1));
        Ok(())
    }

    /// Lists `asset`, which `caller` holds and which is not locked, at `price`: the asset
    /// goes into escrow under a listing with the next listing id.
    pub fn list(&mut self, caller: AccountId, asset: Asset, price: Balance) -> (r: Result<
        (),
        Error,
    >)
        requires
            old(self).wf(),
        ensures
            final(self).wf(),
            ids_advance(old(self)@, final(self)@),
            match old(self)@.list_error(caller, asset) {
                Some(e) => r == Err::<(), Error>(e) && final(self)@ == old(self)@,
                None => r is Ok && final(self)@ == old(self)@.after_list(caller, asset, price),
            },
    {
        self.check_holder(caller, asset, self.config.allow_escrow, Error::EscrowNotAllowed)?;
        if self.next_listing_id == ListingId::MAX || self.listing_count == u64::MAX {
            return Err(Error::NoAvailableListingId);
        }
        proof {
            lemma_listed_wf(self@, caller, asset, price);
        }
        let escrow = self.config.escrow_account;
        let moved = self.registry.transfer(caller, escrow, asset);
        assert(moved is Ok);
        let id = self.next_listing_id;
        self.next_listing_id = id + 1;
        self.listing_count = self.listing_count + 1;
        self.listings.insert(id, Listing { id, seller: caller, asset, price });
        let mut ids = match self.listings_by_owner.get(&caller) {
            Some(v) => copy_ids(v),
            None => Vec::new(),
        };
        ids.push(id);
        let ghost old_ids = self.listings_by_owner@;
        self.listings_by_owner.insert(caller, ids);
        proof {
            assert(self.listings_by_owner@.map_values(|v: Vec<ListingId>| v@) =~= old(
                self,
            )@.listings_by_owner.insert(caller, old(self)@.owner_listing_ids(caller).push(id)));
        }
        self.all_listings.push(asset);
        self.locked.insert(key_of(asset));
        proof {
            lemma_push_contains(old(self)@.all_listings, asset);
            assert forall|b: Asset| #[trigger] self@.is_locked(b) == self.locked@.contains(
                asset_key(b),
            ) by {
                crate::types::lemma_asset_key_injective(asset, b);
                assert(old(self)@.is_locked(b) == old(self).locked@.contains(asset_key(b)));
            }
        }
        self.emit(Event::WalletAssetListed(caller, price, id, asset.0, asset.1));
        Ok(())
    }

    /// Pledges `asset` to `receiver`: the asset goes into claim custody under a claim with
    /// the next claim id.
    fn do_create_claim(&mut self, caller: AccountId, receiver: AccountId, asset: Asset)
        requires
            old(self).wf(),
            old(self)@.create_claim_error(caller, receiver, asset) is None,
        ensures
            final(self)@ == old(self)@.claim_created(receiver, asset),
            final(self).wf(),
    {
        proof {
            lemma_claim_created_wf(self@, caller, receiver, asset);
        }
        let custody = self.config.claim_account;
        let moved = self.registry.transfer(caller, custody, asset);
        assert(moved is Ok);
        let id = self.next_claim_id;
        self.next_claim_id = id + 1;
        self.open_claims.insert(id, Claim { receiver, asset });
        self.all_claims.push(asset);
        self.locked.insert(key_of(asset));
        proof {
            lemma_push_contains(old(self)@.all_claims, asset);
            assert forall|b: Asset| #[trigger] self@.is_locked(b) == self.locked@.contains(
                asset_key(b),
            ) by {
                crate::types::lemma_asset_key_injective(asset, b);
                assert(old(self)@.is_locked(b) == old(self).locked@.contains(asset_key(b)));
            }
        }
    }

    /// Pledges `asset`, which `caller` holds and whose class `caller` administers, to
    /// `receiver`.
    pub fn create_claim(&mut self, caller: AccountId, receiver: AccountId, asset: Asset) -> (r:
        Result<(), Error>)
        requires
            old(self).wf(),
        ensures
            final(self).wf(),
            ids_advance(old(self)@, final(self)@),
            match old(self)@.create_claim_error(caller, receiver, asset) {
                Some(e) => r == Err::<(), Error>(e) && final(self)@ == old(self)@,
                None => r is Ok && final(self)@ == old(self)@.after_create_claim(
                    caller,
                    receiver,
                    asset,
                ),
            },
    {
        self.check_holder(caller, asset, self.config.allow_claim, Error::ClaimingNotAllowed)?;
        let admin = match self.registry.class_owner(asset.0) {
            Some(o) => o,
            None => {
                return Err(Error::AssetNotFound);
            },
        };
        if admin != caller {
            return Err(Error::NoPermission);
        }
        if self.is_custody(receiver) {
            return Err(Error::CustodyAccount);
        }
        if self.next_claim_id == ClaimId::MAX {
            return Err(Error::NoAvailableClaimId);
        }
        self.do_create_claim(caller, receiver, asset);
        self.emit(Event::WalletClaimCreated(caller, receiver, asset.0, asset.1));
        Ok(())
    }

    /// Finishes claim `claim_id` of `caller` once the claim hook has decided: where it
    /// `approved`, the asset leaves claim custody for `caller`.
    pub fn complete_claim(&mut self, caller: AccountId, claim_id: ClaimId, approved: bool) -> (r:
        Result<(), Error>)
        requires
            old(self).wf(),
        ensures
            final(self).wf(),
            ids_advance(old(self)@, final(self)@),
            match old(self)@.claim_error(caller, claim_id) {
                Some(e) => r == Err::<(), Error>(e) && final(self)@ == old(self)@,
                None => if approved {
                    r is Ok && final(self)@ == old(self)@.after_claim(claim_id)
                } else {
                    r == Err::<(), Error>(Error::ClaimCancelled) && final(self)@ == old(self)@
                },
            },
    {
        let claim = self.find_claim(caller, claim_id)?;
        if !approved {
            return Err(Error::ClaimCancelled);
        }
        proof {
            lemma_claimed_wf(self@, claim_id);
            assert(self@.is_claimed(claim.asset));
        }
        let custody = self.config.claim_account;
        let moved = self.registry.transfer(custody, caller, claim.asset);
        assert(moved is Ok);
        let remaining = remove_asset(&self.all_claims, claim.asset);
        self.all_claims = remaining;
        self.open_claims.remove(&claim_id);
        self.locked.remove(&key_of(claim.asset));
        proof {
            lemma_remove_all_contains(old(self)@.all_claims, claim.asset);
            assert forall|b: Asset| #[trigger] self@.is_locked(b) == self.locked@.contains(
                asset_key(b),
            ) by {
                crate::types::lemma_asset_key_injective(claim.asset, b);
                assert(old(self)@.is_locked(b) == old(self).locked@.contains(asset_key(b)));
                assert(!old(self)@.is_listed(claim.asset));
            }
        }
        self.emit(Event::WalletAssetClaimed(caller, claim.asset.0, claim.asset.1));
        Ok(())
    }

    /// The open claim `claim_id` of `caller`.
    fn find_claim(&self, caller: AccountId, claim_id: ClaimId) -> (r: Result<Claim, Error>)
        ensures
            match self@.claim_error(caller, claim_id) {
                Some(e) => r == Err::<Claim, Error>(e),
                None => r == Ok::<Claim, Error>(self@.open_claims[claim_id]),
            },
    {
        if !self.config.allow_claim {
            return Err(Error::ClaimingNotAllowed);
        }
        match self.open_claims.get(&claim_id) {
            Some(c) => if c.receiver == caller {
                Ok(*c)
            } else {
                Err(Error::ClaimNotFound)
            },
            None => Err(Error::ClaimNotFound),
        }
    }

    /// Takes claim `claim_id` of `caller`, once `handler` approves it.
    pub fn claim<H: OnClaimHandler>(&mut self, handler: &H, caller: AccountId, claim_id: ClaimId) -> (r:
        Result<(), Error>)
        requires
            old(self).wf(),
        ensures
            final(self).wf(),
            ids_advance(old(self)@, final(self)@),
            match old(self)@.claim_error(caller, claim_id) {
                Some(e) => r == Err::<(), Error>(e) && final(self)@ == old(self)@,
                None => r is Ok && final(self)@ == old(self)@.after_claim(claim_id) || r == Err::<
                    (),
                    Error,
                >(Error::ClaimCancelled) && final(self)@ == old(self)@,
            },
    {
        let claim = self.find_claim(caller, claim_id)?;
        let approved = handler.claim(caller, claim.asset).is_ok();
        self.complete_claim(caller, claim_id, approved)
    }

    /// Posts the emoji that `emote` names on `asset`, for `caller`.
    pub fn emote(&mut self, caller: AccountId, asset: Asset, emote: Vec<u8>) -> (r: Result<
        (),
        Error,
    >)
        requires
            old(self).wf(),
        ensures
            final(self).wf(),
            ids_advance(old(self)@, final(self)@),
            !old(self)@.registry.has_token(asset) ==> r == Err::<(), Error>(Error::AssetNotFound)
                && final(self)@ == old(self)@,
            old(self)@.registry.has_token(asset) ==> match emoji_for(emote@) {
                Some(e) => r is Ok && final(self)@ == old(self)@.emote_posted(caller, asset, e),
                None => r == Err::<(), Error>(Error::InvalidEmote) && final(self)@ == old(self)@,
            },
    {
        if !self.registry.token_exists(asset) {
            return Err(Error::AssetNotFound);
        }
        let emoji = lookup_emoji(&emote);
        self.post_emote(caller, asset, emoji)
    }

    /// Posts `emoji`, the emoji that an emote named if it named one, on `asset` for `caller`.
    pub fn post_emote(&mut self, caller: AccountId, asset: Asset, emoji: Option<Vec<u8>>) -> (r:
        Result<(), Error>)
        requires
            old(self).wf(),
        ensures
            final(self).wf(),
            ids_advance(old(self)@, final(self)@),
            !old(self)@.registry.has_token(asset) ==> r == Err::<(), Error>(Error::AssetNotFound)
                && final(self)@ == old(self)@,
            old(self)@.registry.has_token(asset) ==> match emoji {
                Some(e) => r is Ok && final(self)@ == old(self)@.emote_posted(caller, asset, e@),
                None => r == Err::<(), Error>(Error::InvalidEmote) && final(self)@ == old(self)@,
            },
    {
        if !self.registry.token_exists(asset) {
            return Err(Error::AssetNotFound);
        }
        match emoji {
            Some(e) => {
                let ghost pre = self@;
                let ghost ev = e@;
                self.emotes.push(EmoteRecord { asset, poster: caller, emoji: e });
                proof {
                    assert(self@.emotes =~= pre.emotes.push((asset, caller, ev)));
                    lemma_wf_same_custody(pre, self@);
                }
                Ok(())
            },
            None => Err(Error::InvalidEmote),
        }
    }

    /// The emojis that `who` posted on `asset`, oldest first.
    pub fn emotes(&self, asset: Asset, who: AccountId) -> (r: Vec<Vec<u8>>)
        ensures
            r@.map_values(|e: Vec<u8>| e@) == emotes_of(self@.emotes, asset, who),
    {
        let mut r: Vec<Vec<u8>> = Vec::new();
        let mut i: usize = 0;
        while i < self.emotes.len()
            invariant
                i <= self.emotes.len(),
                r@.map_values(|e: Vec<u8>| e@) == emotes_of(self@.emotes.subrange(0, i as int), asset, who),
            decreases self.emotes.len() - i,
        {
            assert(self@.emotes.subrange(0, i + 1).drop_last() == self@.emotes.subrange(0, i as int));
            let rec = &self.emotes[i];
            if rec.asset.0 == asset.0 && rec.asset.1 == asset.1 && rec.poster == who {
                let copy = rec.emoji.clone();
                assert(copy@ =~= rec.emoji@);
                let ghost before = r@;
                r.push(copy);
                assert(r@.map_values(|e: Vec<u8>| e@) =~= before.map_values(|e: Vec<u8>| e@).push(copy@));
            }
            i = i + 1;
        }
        assert(self@.emotes.subrange(0, self.emotes.len() as int) == self@.emotes);
        r
    }

    /// The account that holds listed assets.
    pub fn get_escrow_account(&self) -> (r: AccountId)
        ensures
            r == self@.config.escrow_account,
    {
        self.config.escrow_account
    }

    /// The account that holds claimed assets.
    pub fn get_claim_account(&self) -> (r: AccountId)
        ensures
            r == self@.config.claim_account,
    {
        self.config.claim_account
    }

    /// The listing with id `id`, if it is active.
    pub fn listings(&self, id: ListingId) -> (r: Option<Listing>)
        ensures
            r == (if self@.listings.contains_key(id) {
                Some(self@.listings[id])
            } else {
                None::<Listing>
            }),
    {
        match self.listings.get(&id) {
            Some(l) => Some(*l),
            None => None,
        }
    }

    /// The ids of `who`'s listings; `None` where `who` never listed.
    pub fn listings_by_owner(&self, who: AccountId) -> (r: Option<Vec<ListingId>>)
        ensures
            self@.listings_by_owner.contains_key(who) ==> r is Some && r->0@
                == self@.listings_by_owner[who],
            !self@.listings_by_owner.contains_key(who) ==> r is None,
    {
        match self.listings_by_owner.get(&who) {
            Some(v) => Some(copy_ids(v)),
            None => None,
        }
    }

    /// The assets of all active listings, oldest first.
    pub fn all_listings(&self) -> (r: Vec<Asset>)
        ensures
            r@ == self@.all_listings,
    {
        copy_assets(&self.all_listings)
    }

    /// The id that the next listing gets.
    pub fn next_listing_id(&self) -> (r: ListingId)
        ensures
            r == self@.next_listing_id,
    {
        self.next_listing_id
    }

    /// The number of active listings.
    pub fn listing_count(&self) -> (r: u64)
        ensures
            r == self@.listing_count,
    {
        self.listing_count
    }

    /// The number of sales made.
    pub fn order_count(&self) -> (r: u64)
        ensures
            r == self@.order_count,
    {
        self.order_count
    }

    /// The last sale of `asset`, if it was ever sold.
    pub fn order_history(&self, asset: Asset) -> (r: Option<Order>)
        ensures
            r == (if self@.order_history.contains_key(asset_key(asset)) {
                Some(self@.order_history[asset_key(asset)])
            } else {
                None::<Order>
            }),
    {
        match self.order_history.get(&key_of(asset)) {
            Some(o) => Some(*o),
            None => None,
        }
    }

    /// Claim `id`, if it is open and pledged to `receiver`.
    pub fn open_claims(&self, receiver: AccountId, id: ClaimId) -> (r: Option<Claim>)
        ensures
            r == (if self@.open_claims.contains_key(id) && self@.open_claims[id].receiver
                == receiver {
                Some(self@.open_claims[id])
            } else {
                None::<Claim>
            }),
    {
        match self.open_claims.get(&id) {
            Some(c) => if c.receiver == receiver {
                Some(*c)
            } else {
                None
            },
            None => None,
        }
    }

    /// The assets of all open claims, oldest first.
    pub fn all_claims(&self) -> (r: Vec<Asset>)
        ensures
            r@ == self@.all_claims,
    {
        copy_assets(&self.all_claims)
    }

    /// The id that the next claim gets.
    pub fn next_claim_id(&self) -> (r: ClaimId)
        ensures
            r == self@.next_claim_id,
    {
        self.next_claim_id
    }

    /// Whether `who` holds `asset`.
    pub fn is_owner(&self, who: AccountId, asset: Asset) -> (r: bool)
        ensures
            r == self@.owns(who, asset),
    {
        self.registry.is_owner(who, asset)
    }

    /// The free balance of `who`.
    pub fn free_balance(&self, who: AccountId) -> (r: Balance)
        ensures
            r == self@.ledger.balance(who),
    {
        self.ledger.free_balance(who)
    }

    /// The current block number, which dates sales.
    pub fn block_number(&self) -> (r: BlockNumber)
        ensures
            r == self@.block_number,
    {
        self.block_number
    }

    /// Sets the current block number.
    pub fn set_block_number(&mut self, n: BlockNumber)
        requires
            old(self).wf(),
        ensures
            final(self).wf(),
            final(self)@ == (WalletView { block_number: n, ..old(self)@ }),
    {
        let ghost pre = self@;
        self.block_number = n;
        proof {
            lemma_wf_same_custody(pre, self@);
        }
    }

    /// Credits `amount` to `who`.
    pub fn deposit(&mut self, who: AccountId, amount: Balance) -> (r: Result<(), Error>)
        requires
            old(self).wf(),
        ensures
            final(self).wf(),
            old(self)@.ledger.balance(who) + amount > Balance::MAX ==> r == Err::<(), Error>(
                Error::BalanceOverflow,
            ) && final(self)@ == old(self)@,
            old(self)@.ledger.balance(who) + amount <= Balance::MAX ==> r is Ok && final(self)@ == (
            WalletView {
                ledger: LedgerView {
                    balances: old(self)@.ledger.balances.insert(
                        who,
                        (old(self)@.ledger.balance(who) + amount) as Balance,
                    ),
                    ..old(self)@.ledger
                },
                ..old(self)@
            }),
    {
        let ghost pre = self@;
        let r = self.ledger.deposit(who, amount);
        proof {
            lemma_wf_same_custody(pre, self@);
        }
        r
    }

    /// Creates a class administered by `owner` in the registry and returns its id.
    pub fn create_class(&mut self, owner: AccountId) -> (r: Result<ClassId, Error>)
        requires
            old(self).wf(),
        ensures
            final(self).wf(),
            ids_advance(old(self)@, final(self)@),
            old(self)@.registry.next_class_id == ClassId::MAX ==> r == Err::<ClassId, Error>(
                Error::NoAvailableClassId,
            ) && final(self)@ == old(self)@,
            old(self)@.registry.next_class_id < ClassId::MAX ==> r == Ok::<ClassId, Error>(
                old(self)@.registry.next_class_id,
            ) && final(self)@ == (WalletView {
                registry: RegistryView {
                    classes: old(self)@.registry.classes.insert(
                        old(self)@.registry.next_class_id,
                        ClassInfo { owner, next_token_id: 0 },
                    ),
                    next_class_id: (old(self)@.registry.next_class_id + 1) as ClassId,
                    ..old(self)@.registry
                },
                ..old(self)@
            }),
    {
        let ghost pre = self@;
        let r = self.registry.create_class(owner);
        proof {
            lemma_wf_registry_classes(pre, self@);
        }
        r
    }

    /// Mints the next token of `class` for `owner` in the registry and returns its id. A
    /// custody account cannot receive a new token.
    pub fn mint(&mut self, owner: AccountId, class: ClassId) -> (r: Result<TokenId, Error>)
        requires
            old(self).wf(),
        ensures
            final(self).wf(),
            ids_advance(old(self)@, final(self)@),
            old(self)@.is_custody(owner) ==> r == Err::<TokenId, Error>(Error::CustodyAccount)
                && final(self)@ == old(self)@,
            !old(self)@.is_custody(owner) && !old(self)@.registry.classes.contains_key(class) ==> r == Err::<TokenId, Error>(
                Error::ClassNotFound,
            ) && final(self)@ == old(self)@,
            !old(self)@.is_custody(owner) && old(self)@.registry.classes.contains_key(class)
                && old(self)@.registry.classes[class].next_token_id == TokenId::MAX ==> r == Err::<
                TokenId,
                Error,
            >(Error::NoAvailableTokenId) && final(self)@ == old(self)@,
            !old(self)@.is_custody(owner) && old(self)@.registry.classes.contains_key(class)
                && old(self)@.registry.classes[class].next_token_id < TokenId::MAX ==> {
                let t = old(self)@.registry.classes[class].next_token_id;
                &&& r == Ok::<TokenId, Error>(t)
                &&& final(self)@.owns(owner, (class, t))
                &&& final(self)@ == WalletView {
                    registry: RegistryView {
                        classes: old(self)@.registry.classes.insert(
                            class,
                            ClassInfo {
                                owner: old(self)@.registry.classes[class].owner,
                                next_token_id: (t + 1) as TokenId,
                            },
                        ),
                        owners: old(self)@.registry.owners.insert(asset_key((class, t)), owner),
                        ..old(self)@.registry
                    },
                    ..old(self)@
                }
            },
    {
        if self.is_custody(owner) {
            return Err(Error::CustodyAccount);
        }
        let ghost pre = self@;
        let r = self.registry.mint(owner, class);
        proof {
            if r is Ok {
                let t = r->Ok_0;
                assert forall|b: Asset| b != (class, t) implies #[trigger] self@.registry.has_token(
                    b,
                ) == pre.registry.has_token(b) && self@.registry.owners[asset_key(b)]
                    == pre.registry.owners[asset_key(b)] by {
                    crate::types::lemma_asset_key_injective((class, t), b);
                }
                assert(!pre.is_locked((class, t))) by {
                    if pre.is_listed((class, t)) {
                        assert(pre.listing_for((class, t)));
                    }
                    if pre.is_claimed((class, t)) {
                        assert(pre.claim_for((class, t)));
                    }
                }
                lemma_wf_registry_change(pre, self@, (class, t));
            }
        }
        r
    }

    /// Ends listing `listing.id` and hands its asset from escrow to `to`.
    fn do_unlist(&mut self, listing: Listing, to: AccountId)
        requires
            old(self).wf(),
            !old(self)@.is_custody(to),
            old(self)@.listings.contains_key(listing.id),
            old(self)@.listings[listing.id] == listing,
        ensures
            final(self)@ == old(self)@.unlisted(listing.id, to),
            final(self).wf(),
    {
        proof {
            lemma_unlisted_wf(self@, listing.id, to);
            assert(self@.is_listed(listing.asset));
        }
        let escrow = self.config.escrow_account;
        let moved = self.registry.transfer(escrow, to, listing.asset);
        assert(moved is Ok);
        self.listing_count = self.listing_count - 1;
        let remaining = remove_asset(&self.all_listings, listing.asset);
        self.all_listings = remaining;
        let ids = match self.listings_by_owner.get(&listing.seller) {
            Some(v) => remove_id(v, listing.id),
            None => Vec::new(),
        };
        let ghost old_ids = self.listings_by_owner@;
        self.listings_by_owner.insert(listing.seller, ids);
        proof {
            assert(old(self)@.owner_listing_ids(listing.seller) == old_ids[listing.seller]@);
            assert(self.listings_by_owner@.map_values(|v: Vec<ListingId>| v@) =~= old(
                self,
            )@.listings_by_owner.insert(
                listing.seller,
                remove_all(old(self)@.owner_listing_ids(listing.seller), listing.id),
            ));
        }
        self.listings.remove(&listing.id);
        self.locked.remove(&key_of(listing.asset));
        proof {
            assert(self@ == old(self)@.unlisted(listing.id, to));
            lemma_remove_all_contains(old(self)@.all_listings, listing.asset);
            assert forall|b: Asset| #[trigger] self@.is_locked(b) == self.locked@.contains(
                asset_key(b),
            ) by {
                crate::types::lemma_asset_key_injective(listing.asset, b);
                assert(old(self)@.is_locked(b) == old(self).locked@.contains(asset_key(b)));
                assert(!old(self)@.is_claimed(listing.asset));
            }
        }
    }

    /// Ends listing `listing_id` of `caller` and returns its asset to `caller`.
    pub fn unlist(&mut self, caller: AccountId, listing_id: ListingId) -> (r: Result<(), Error>)
        requires
            old(self).wf(),
        ensures
            final(self).wf(),
            ids_advance(old(self)@, final(self)@),
            match old(self)@.unlist_error(caller, listing_id) {
                Some(e) => r == Err::<(), Error>(e) && final(self)@ == old(self)@,
                None => r is Ok && final(self)@ == old(self)@.after_unlist(caller, listing_id),
            },
    {
        if !self.config.allow_escrow {
            return Err(Error::EscrowNotAllowed);
        }
        let listing = match self.listings.get(&listing_id) {
            Some(l) => *l,
            None => {
                return Err(Error::ListingNotFound);
            },
        };
        if listing.seller != caller {
            return Err(Error::NoPermission);
        }
        assert(self@.listings.contains_key(listing_id));
        assert(self@.listing_ok(listing_id));
        assert(listing.id == listing_id);
        self.do_unlist(listing, caller);
        self.emit(Event::WalletAssetUnlisted(caller, listing_id, listing.asset.0, listing.asset.1));
        Ok(())
    }

    /// Buys listing `listing_id` for `caller`: pays the seller the price, keeping `caller`'s
    /// account alive, and hands the asset from escrow to `caller`. A seller may buy their
    /// own listing; the payment then moves nothing.
    pub fn buy(&mut self, caller: AccountId, listing_id: ListingId) -> (r: Result<(), Error>)
        requires
            old(self).wf(),
        ensures
            final(self).wf(),
            ids_advance(old(self)@, final(self)@),
            buy_result(old(self)@, caller, listing_id, r, final(self)@),
    {
        if !self.config.allow_escrow {
            return Err(Error::EscrowNotAllowed);
        }
        let listing = match self.listings.get(&listing_id) {
            Some(l) => *l,
            None => {
                return Err(Error::ListingNotFound);
            },
        };
        assert(self@.listings.contains_key(listing_id));
        assert(listing.id == listing_id);
        if self.is_custody(caller) {
            return Err(Error::CustodyAccount);
        }
        if self.order_count == u64::MAX {
            return Err(Error::NoAvailableOrderId);
        }
        let ghost pre = self@;
        match self.ledger.transfer(caller, listing.seller, listing.price) {
            Ok(()) => {},
            Err(e) => {
                return Err(e);
            },
        }
        proof {
            lemma_wf_same_custody(pre, self@);
            assert(self@ == WalletView { ledger: self.ledger@, ..pre });
        }
        self.do_unlist(listing, caller);
        let ghost mid = self@;
        self.order_count = self.order_count + 1;
        let order = Order { listing, buyer: caller, block: self.block_number };
        self.order_history.insert(key_of(listing.asset), order);
        proof {
            lemma_wf_same_custody(mid, self@);
        }
        self.emit(
            Event::WalletAssetPurchased(listing.seller, caller, listing.asset.0, listing.asset.1),
        );
        self.emit(Event::WalletAssetBuySuccess(listing.seller, caller, listing_id, listing.price));
        Ok(())
    }
}

/// A well-formed wallet has a well-formed abstract state, so every law stated over
/// `WalletView` applies to it.
pub proof fn lemma_module_wf(m: &Module)
    requires
        m.wf(),
    ensures
        m@.wf(),
{
}

} // verus!
