//! Escrow/reward ledger: free and reserved balances per account.
//!
//! `reserve` moves funds from the free to the reserved balance as a condition
//! of an action and fails without side effect when the free balance is short;
//! `mint_and_credit` models reward issuance and cannot fail.

use vstd::prelude::*;
use crate::AccountId;
use crate::store::IdMap;

verus! {

/// The two balances an account holds against the ledger.
pub struct AccountBalance {
    pub free: u128,
    pub reserved: u128,
}

#[derive(Debug, PartialEq, Eq)]
pub enum LedgerError {
    InsufficientBalance,
}

/// Addition that stops at the largest representable balance.
pub open spec fn sat_add_u128(a: u128, b: u128) -> u128 {
    if a + b <= u128::MAX {
        (a + b) as u128
    } else {
        u128::MAX
    }
}

pub struct Ledger {
    pub accounts: IdMap<AccountBalance>,
}

impl Ledger {
    pub open spec fn wf(&self) -> bool {
        self.accounts.inv()
    }

    /// The free balance of an account; an untouched account holds nothing.
    pub open spec fn free_of(&self, who: AccountId) -> u128 {
        if self.accounts@.contains_key(who) {
            self.accounts@[who].free
        } else {
            0
        }
    }

    /// The reserved balance of an account.
    pub open spec fn reserved_of(&self, who: AccountId) -> u128 {
        if self.accounts@.contains_key(who) {
            self.accounts@[who].reserved
        } else {
            0
        }
    }

    pub fn new() -> (r: Self)
        ensures
            r.wf(),
            forall|a: AccountId| #[trigger] r.free_of(a) == 0,
            forall|a: AccountId| #[trigger] r.reserved_of(a) == 0,
    {
        Ledger { accounts: IdMap::new() }
    }

    pub fn free_balance(&self, who: AccountId) -> (r: u128)
        requires
            self.wf(),
        ensures
            r == self.free_of(who),
    {
        match self.accounts.get(who) {
            Some(b) => b.free,
            None => 0,
        }
    }

    pub fn reserved_balance(&self, who: AccountId) -> (r: u128)
        requires
            self.wf(),
        ensures
            r == self.reserved_of(who),
    {
        match self.accounts.get(who) {
            Some(b) => b.reserved,
            None => 0,
        }
    }

    /// Unconditionally credits newly issued funds to the free balance.
    pub fn mint_and_credit(&mut self, who: AccountId, amount: u128)
        requires
            old(self).wf(),
        ensures
            final(self).wf(),
            final(self).free_of(who) == sat_add_u128(old(self).free_of(who), amount),
            final(self).reserved_of(who) == old(self).reserved_of(who),
            forall|a: AccountId|
                a != who ==> #[trigger] final(self).free_of(a) == old(self).free_of(a),
            forall|a: AccountId|
                a != who ==> #[trigger] final(self).reserved_of(a) == old(self).reserved_of(a),
    {
        let free = self.free_balance(who);
        let reserved = self.reserved_balance(who);
        let new_free = free.saturating_add(amount);
        self.accounts.insert(who, AccountBalance { free: new_free, reserved });
    }

    /// Moves `amount` from the free to the reserved balance, or fails with no
    /// side effect when the free balance is insufficient.
    pub fn reserve(&mut self, who: AccountId, amount: u128) -> (r: Result<(), LedgerError>)
        requires
            old(self).wf(),
        ensures
            final(self).wf(),
            old(self).free_of(who) < amount ==> r == Err::<(), LedgerError>(
                LedgerError::InsufficientBalance,
            ) && *final(self) == *old(self),
            old(self).free_of(who) >= amount ==> {
                &&& r == Ok::<(), LedgerError>(())
                &&& final(self).free_of(who) == old(self).free_of(who) - amount
                &&& final(self).reserved_of(who) == sat_add_u128(
                    old(self).reserved_of(who),
                    amount,
                )
            },
            forall|a: AccountId|
                a != who ==> #[trigger] final(self).free_of(a) == old(self).free_of(a),
            forall|a: AccountId|
                a != who ==> #[trigger] final(self).reserved_of(a) == old(self).reserved_of(a),
    {
        let free = self.free_balance(who);
        if free < amount {
            return Err(LedgerError::InsufficientBalance);
        }
        let reserved = self.reserved_balance(who);
        let new_reserved = reserved.saturating_add(amount);
        self.accounts.insert(who, AccountBalance { free: free - amount, reserved: new_reserved });
        Ok(())
    }
}

} // verus!
