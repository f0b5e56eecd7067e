use vstd::prelude::*;
use std::collections::HashMap;

verus! {

broadcast use vstd::std_specs::hash::group_hash_axioms;

/// In-memory model of the fungible token service for one asset: a durable
/// mapping from account to balance, with all-or-nothing transfers. The engine
/// is handed one of these by reference, as its window onto the asset that an
/// order is paid in.
pub struct TokenLedger {
    /// Identifier of the asset this ledger keeps balances of.
    pub token: u64,
    /// Balance per account; an absent account holds zero.
    pub balances: HashMap<u64, i128>,
}

impl TokenLedger {
    /// The balance of an account; zero when the account is absent.
    pub open spec fn bal(self, account: u64) -> int {
        if self.balances@.contains_key(account) {
            self.balances@[account] as int
        } else {
            0
        }
    }

    /// Every recorded balance is non-negative.
    pub open spec fn wf(self) -> bool {
        forall|a: u64| #[trigger] self.bal(a) >= 0
    }

    /// A fresh ledger for the given asset, with every balance zero.
    pub fn new(token: u64) -> (r: TokenLedger)
        ensures
            r.wf(),
            r.token == token,
            forall|a: u64| #[trigger] r.bal(a) == 0,
    {
        TokenLedger { token, balances: HashMap::new() }
    }

    /// Reads an account's balance.
    pub fn balance(&self, account: u64) -> (r: i128)
        ensures
            r == self.bal(account),
    {
        match self.balances.get(&account) {
            Some(v) => *v,
            None => 0,
        }
    }

    /// Credits an account out of thin air, as the asset's issuer would.
    /// Succeeds exactly when the amount is non-negative and the account's
    /// balance does not overflow; on failure nothing changes.
    pub fn mint(&mut self, account: u64, amount: i128) -> (r: bool)
        requires
            old(self).wf(),
        ensures
            final(self).wf(),
            final(self).token == old(self).token,
            r == (amount >= 0 && old(self).bal(account) + amount <= i128::MAX),
            r ==> final(self).bal(account) == old(self).bal(account) + amount,
            !r ==> *final(self) == *old(self),
            forall|a: u64| a != account ==> #[trigger] final(self).bal(a) == old(self).bal(a),
    {
        if amount < 0 {
            return false;
        }
        let current = self.balance(account);
        match current.checked_add(amount) {
            Some(updated) => {
                self.balances.insert(account, updated);
                proof {
                    assert forall|a: u64| #[trigger] self.bal(a) >= 0 by {
                        if a != account {
                            assert(self.bal(a) == old(self).bal(a));
                        }
                    }
                }
                true
            },
            None => false,
        }
    }

    /// Moves `amount` from one account to another, all or nothing. Succeeds
    /// exactly when the amount is non-negative, the source holds at least
    /// `amount`, and the destination's balance does not overflow; on failure
    /// nothing changes. A transfer to the source itself leaves all balances
    /// as they were.
    pub fn transfer(&mut self, from: u64, to: u64, amount: i128) -> (r: bool)
        requires
            old(self).wf(),
        ensures
            final(self).wf(),
            final(self).token == old(self).token,
            r == (0 <= amount <= old(self).bal(from) && (from == to || old(self).bal(to) + amount
                <= i128::MAX)),
            r && from != to ==> final(self).bal(from) == old(self).bal(from) - amount
                && final(self).bal(to) == old(self).bal(to) + amount,
            r && from == to ==> *final(self) == *old(self),
            !r ==> *final(self) == *old(self),
            forall|a: u64|
                a != from && a != to ==> #[trigger] final(self).bal(a) == old(self).bal(a),
    {
        if amount < 0 {
            return false;
        }
        let from_balance = self.balance(from);
        if from_balance < amount {
            return false;
        }
        if from == to {
            return true;
        }
        let to_balance = self.balance(to);
        match to_balance.checked_add(amount) {
            Some(to_updated) => {
                self.balances.insert(from, from_balance - amount);
                self.balances.insert(to, to_updated);
                proof {
                    assert forall|a: u64| #[trigger] self.bal(a) >= 0 by {
                        if a != from && a != to {
                            assert(self.bal(a) == old(self).bal(a));
                        }
                    }
                }
                true
            },
            None => false,
        }
    }
}

} // verus!
