use std::collections::HashMap;
use vstd::prelude::*;

use crate::types::{AccountId, Balance, Error};

verus! {

broadcast use vstd::std_specs::hash::group_hash_axioms;

/// The currency ledger: a free balance per account and an existential deposit,
/// the least balance that an account in use may hold.
pub struct Ledger {
    balances: HashMap<AccountId, Balance>,
    existential_deposit: Balance,
}

/// The ledger's abstract state.
pub ghost struct LedgerView {
    pub balances: Map<AccountId, Balance>,
    pub existential_deposit: Balance,
}

impl LedgerView {
    /// The free balance of `who`; an unknown account holds nothing.
    pub open spec fn balance(self, who: AccountId) -> Balance {
        if self.balances.contains_key(who) {
            self.balances[who]
        } else {
            0
        }
    }

    /// Why a payment that keeps the payer alive is refused, if it is.
    pub open spec fn payment_error(self, from: AccountId, to: AccountId, amount: Balance) -> Option<
        Error,
    > {
        if amount == 0 || from == to {
            None
        } else if self.balance(from) < amount {
            Some(Error::InsufficientBalance)
        } else if self.balance(from) - amount < self.existential_deposit {
            Some(Error::KeepAlive)
        } else if self.balance(to) + amount > Balance::MAX {
            Some(Error::BalanceOverflow)
        } else if self.balance(to) + amount < self.existential_deposit {
            Some(Error::ExistentialDeposit)
        } else {
            None
        }
    }

    /// The ledger after a payment that `payment_error` admits.
    pub open spec fn paid(self, from: AccountId, to: AccountId, amount: Balance) -> LedgerView {
        if amount == 0 || from == to {
            self
        } else {
            LedgerView {
                balances: self.balances.insert(from, (self.balance(from) - amount) as Balance).insert(
                    to,
                    (self.balance(to) + amount) as Balance,
                ),
                ..self
            }
        }
    }
}

impl View for Ledger {
    type V = LedgerView;

    closed spec fn view(&self) -> LedgerView {
        LedgerView { balances: self.balances@, existential_deposit: self.existential_deposit }
    }
}

impl Ledger {
    /// An empty ledger with the given existential deposit.
    pub fn new(existential_deposit: Balance) -> (r: Ledger)
        ensures
            r@.balances == Map::<AccountId, Balance>::empty(),
            r@.existential_deposit == existential_deposit,
    {
        Ledger { balances: HashMap::new(), existential_deposit }
    }

    /// The free balance of `who`.
    pub fn free_balance(&self, who: AccountId) -> (r: Balance)
        ensures
            r == self@.balance(who),
    {
        match self.balances.get(&who) {
            Some(b) => *b,
            None => 0,
        }
    }

    /// Credits `amount` to `who`.
    pub fn deposit(&mut self, who: AccountId, amount: Balance) -> (r: Result<(), Error>)
        ensures
            old(self)@.balance(who) + amount > Balance::MAX ==> r == Err::<(), Error>(
                Error::BalanceOverflow,
            ) && final(self)@ == old(self)@,
            old(self)@.balance(who) + amount <= Balance::MAX ==> r is Ok && final(self)@ == (
            LedgerView {
                balances: old(self)@.balances.insert(
                    who,
                    (old(self)@.balance(who) + amount) as Balance,
                ),
                ..old(self)@
            }),
    {
        let b = self.free_balance(who);
        if b > Balance::MAX - amount {
            return Err(Error::BalanceOverflow);
        }
        self.balances.insert(who, b + amount);
        Ok(())
    }

    /// Pays `amount` from `from` to `to`, keeping the payer's account alive.
    pub fn transfer(&mut self, from: AccountId, to: AccountId, amount: Balance) -> (r: Result<
        (),
        Error,
    >)
        ensures
            match old(self)@.payment_error(from, to, amount) {
                Some(e) => r == Err::<(), Error>(e) && final(self)@ == old(self)@,
                None => r is Ok && final(self)@ == old(self)@.paid(from, to, amount),
            },
    {
        if amount == 0 || from == to {
            return Ok(());
        }
        let fb = self.free_balance(from);
        let tb = self.free_balance(to);
        if fb < amount {
            return Err(Error::InsufficientBalance);
        }
        if fb - amount < self.existential_deposit {
            return Err(Error::KeepAlive);
        }
        if tb > Balance::MAX - amount {
            return Err(Error::BalanceOverflow);
        }
        if tb + amount < self.existential_deposit {
            return Err(Error::ExistentialDeposit);
        }
        self.balances.insert(from, fb - amount);
        self.balances.insert(to, tb + amount);
        Ok(())
    }
}

} // verus!
