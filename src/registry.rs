use std::collections::HashMap;
use vstd::prelude::*;

use crate::types::{asset_key, key_of, AccountId, Asset, ClassId, Error, TokenId};

verus! {

broadcast use vstd::std_specs::hash::group_hash_axioms;

/// What the registry records of a class.
#[derive(Clone, Copy, Debug, PartialEq, Eq, Structural)]
pub struct ClassInfo {
    /// The class administrator.
    pub owner: AccountId,
    /// The id that the next token minted in the class gets.
    pub next_token_id: TokenId,
}

/// The asset registry: classes of non-fungible tokens and the holder of each token.
pub struct Registry {
    classes: HashMap<ClassId, ClassInfo>,
    next_class_id: ClassId,
    owners: HashMap<u128, AccountId>,
}

/// The registry's abstract state.
pub ghost struct RegistryView {
    pub classes: Map<ClassId, ClassInfo>,
    pub next_class_id: ClassId,
    /// The holder of each token, by `asset_key`.
    pub owners: Map<u128, AccountId>,
}

impl RegistryView {
    pub open spec fn has_token(self, a: Asset) -> bool {
        self.owners.contains_key(asset_key(a))
    }

    pub open spec fn owner_is(self, a: Asset, who: AccountId) -> bool {
        self.has_token(a) && self.owners[asset_key(a)] == who
    }

    /// Every token belongs to a class and has an id that the class already handed out.
    pub open spec fn wf(self) -> bool {
        &&& forall|c: ClassId| #[trigger] self.classes.contains_key(c) ==> c < self.next_class_id
        &&& forall|a: Asset| #[trigger]
            self.has_token(a) ==> self.classes.contains_key(a.0) && a.1
                < self.classes[a.0].next_token_id
    }

    /// The registry after moving `a` to `to`.
    pub open spec fn moved(self, a: Asset, to: AccountId) -> RegistryView {
        RegistryView { owners: self.owners.insert(asset_key(a), to), ..self }
    }
}

impl View for Registry {
    type V = RegistryView;

    closed spec fn view(&self) -> RegistryView {
        RegistryView {
            classes: self.classes@,
            next_class_id: self.next_class_id,
            owners: self.owners@,
        }
    }
}

impl Registry {
    /// An empty registry.
    pub fn new() -> (r: Registry)
        ensures
            r@.classes == Map::<ClassId, ClassInfo>::empty(),
            r@.next_class_id == 0,
            r@.owners == Map::<u128, AccountId>::empty(),
            r@.wf(),
    {
        Registry { classes: HashMap::new(), next_class_id: 0, owners: HashMap::new() }
    }

    /// Creates a class administered by `owner` and returns its id.
    pub fn create_class(&mut self, owner: AccountId) -> (r: Result<ClassId, Error>)
        requires
            old(self)@.wf(),
        ensures
            final(self)@.wf(),
            old(self)@.next_class_id == ClassId::MAX ==> r == Err::<ClassId, Error>(
                Error::NoAvailableClassId,
            ) && final(self)@ == old(self)@,
            old(self)@.next_class_id < ClassId::MAX ==> r == Ok::<ClassId, Error>(
                old(self)@.next_class_id,
            ) && final(self)@ == (RegistryView {
                classes: old(self)@.classes.insert(
                    old(self)@.next_class_id,
                    ClassInfo { owner, next_token_id: 0 },
                ),
                next_class_id: (old(self)@.next_class_id + 1) as ClassId,
                ..old(self)@
            }),
    {
        if self.next_class_id == ClassId::MAX {
            return Err(Error::NoAvailableClassId);
        }
        let id = self.next_class_id;
        self.classes.insert(id, ClassInfo { owner, next_token_id: 0 });
        self.next_class_id = id + 1;
        proof {
            // a class that already held tokens is older than the new one
            assert forall|a: Asset| #[trigger] self@.has_token(a) implies self@.classes.contains_key(
                a.0,
            ) && a.1 < self@.classes[a.0].next_token_id by {
                assert(old(self)@.has_token(a));
                assert(old(self)@.classes.contains_key(a.0));
            }
        }
        Ok(id)
    }

    /// Mints the next token of `class` for `owner` and returns its id.
    pub fn mint(&mut self, owner: AccountId, class: ClassId) -> (r: Result<TokenId, Error>)
        requires
            old(self)@.wf(),
        ensures
            final(self)@.wf(),
            !old(self)@.classes.contains_key(class) ==> r == Err::<TokenId, Error>(
                Error::ClassNotFound,
            ) && final(self)@ == old(self)@,
            old(self)@.classes.contains_key(class) && old(self)@.classes[class].next_token_id
                == TokenId::MAX ==> r == Err::<TokenId, Error>(Error::NoAvailableTokenId)
                && final(self)@ == old(self)@,
            old(self)@.classes.contains_key(class) && old(self)@.classes[class].next_token_id
                < TokenId::MAX ==> {
                let t = old(self)@.classes[class].next_token_id;
                &&& r == Ok::<TokenId, Error>(t)
                &&& !old(self)@.has_token((class, t))
                &&& final(self)@ == RegistryView {
                    classes: old(self)@.classes.insert(
                        class,
                        ClassInfo { owner: old(self)@.classes[class].owner, next_token_id: (t + 1) as TokenId },
                    ),
                    owners: old(self)@.owners.insert(asset_key((class, t)), owner),
                    ..old(self)@
                }
            },
    {
        let info = match self.classes.get(&class) {
            Some(i) => *i,
            None => {
                return Err(Error::ClassNotFound);
            },
        };
        if info.next_token_id == TokenId::MAX {
            return Err(Error::NoAvailableTokenId);
        }
        let t = info.next_token_id;
        let k = key_of((class, t));
        self.classes.insert(class, ClassInfo { owner: info.owner, next_token_id: t + 1 });
        self.owners.insert(k, owner);
        proof {
            assert forall|a: Asset| #[trigger] self@.has_token(a) implies self@.classes.contains_key(
                a.0,
            ) && a.1 < self@.classes[a.0].next_token_id by {
                crate::types::lemma_asset_key_injective(a, (class, t));
                if asset_key(a) != k {
                    assert(old(self)@.has_token(a));
                }
            }
        }
        Ok(t)
    }

    /// Whether `who` holds `asset`.
    pub fn is_owner(&self, who: AccountId, asset: Asset) -> (r: bool)
        ensures
            r == self@.owner_is(asset, who),
    {
        match self.owners.get(&key_of(asset)) {
            Some(o) => *o == who,
            None => false,
        }
    }

    /// Whether `asset` exists.
    pub fn token_exists(&self, asset: Asset) -> (r: bool)
        ensures
            r == self@.has_token(asset),
    {
        self.owners.contains_key(&key_of(asset))
    }

    /// The administrator of `class`, if the class exists.
    pub fn class_owner(&self, class: ClassId) -> (r: Option<AccountId>)
        ensures
            r == (if self@.classes.contains_key(class) {
                Some(self@.classes[class].owner)
            } else {
                None::<AccountId>
            }),
    {
        match self.classes.get(&class) {
            Some(i) => Some(i.owner),
            None => None,
        }
    }

    /// Moves `asset` from `from` to `to`. Moving a token to its holder changes nothing.
    pub fn transfer(&mut self, from: AccountId, to: AccountId, asset: Asset) -> (r: Result<(), Error>)
        requires
            old(self)@.wf(),
        ensures
            final(self)@.wf(),
            !old(self)@.has_token(asset) ==> r == Err::<(), Error>(Error::TokenNotFound),
            old(self)@.has_token(asset) && !old(self)@.owner_is(asset, from) ==> r == Err::<(), Error>(
                Error::NoPermission,
            ),
            r is Err ==> final(self)@ == old(self)@,
            old(self)@.owner_is(asset, from) ==> r is Ok && final(self)@ == old(self)@.moved(
                asset,
                to,
            ),
    {
        let k = key_of(asset);
        let holder = match self.owners.get(&k) {
            Some(o) => *o,
            None => {
                return Err(Error::TokenNotFound);
            },
        };
        if holder != from {
            return Err(Error::NoPermission);
        }
        self.owners.insert(k, to);
        proof {
            assert(self@.classes == old(self)@.classes);
            assert forall|a: Asset| #[trigger] self@.has_token(a) implies self@.classes.contains_key(
                a.0,
            ) && a.1 < self@.classes[a.0].next_token_id by {
                assert(old(self)@.has_token(a));
            }
        }
        Ok(())
    }

    /// Destroys `asset`, which `owner` must hold.
    pub fn burn(&mut self, owner: AccountId, asset: Asset) -> (r: Result<(), Error>)
        requires
            old(self)@.wf(),
        ensures
            final(self)@.wf(),
            !old(self)@.has_token(asset) ==> r == Err::<(), Error>(Error::TokenNotFound),
            old(self)@.has_token(asset) && !old(self)@.owner_is(asset, owner) ==> r == Err::<(), Error>(
                Error::NoPermission,
            ),
            r is Err ==> final(self)@ == old(self)@,
            old(self)@.owner_is(asset, owner) ==> r is Ok && final(self)@ == (RegistryView {
                owners: old(self)@.owners.remove(asset_key(asset)),
                ..old(self)@
            }),
    {
        let k = key_of(asset);
        let holder = match self.owners.get(&k) {
            Some(o) => *o,
            None => {
                return Err(Error::TokenNotFound);
            },
        };
        if holder != owner {
            return Err(Error::NoPermission);
        }
        self.owners.remove(&k);
        proof {
            assert forall|a: Asset| #[trigger] self@.has_token(a) implies self@.classes.contains_key(
                a.0,
            ) && a.1 < self@.classes[a.0].next_token_id by {
                assert(old(self)@.has_token(a));
            }
        }
        Ok(())
    }
}

} // verus!
