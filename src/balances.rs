//! The fund ledger consulted by sales: a transfer primitive that keeps a
//! minimum balance on the paying account.
use vstd::prelude::*;
use crate::table::Table;

verus! {

/// Why a transfer of funds was refused.
#[derive(Clone, Copy, Debug, PartialEq, Eq, Structural)]
pub enum BalanceError {
    /// The payer would keep less than the minimum balance.
    InsufficientBalance,
    /// The payee's balance would not fit.
    Overflow,
}

/// A fund ledger that can move an amount from one account to another.
pub trait Currency {
    /// The ledger is in a usable state.
    spec fn ready(&self) -> bool;

    /// The free balance of `who`.
    spec fn balance(&self, who: u64) -> nat;

    /// Moves `amount` from `from` to `to`, or changes nothing.
    fn transfer(&mut self, from: u64, to: u64, amount: u64) -> (r: Result<(), BalanceError>)
        requires
            old(self).ready(),
            from != to,
        ensures
            final(self).ready(),
            r is Ok ==> final(self).balance(from) + amount == old(self).balance(from)
                && final(self).balance(to) == old(self).balance(to) + amount,
            r is Ok ==> forall|a: u64|
                a != from && a != to ==> #[trigger] final(self).balance(a) == old(self).balance(a),
            r is Err ==> forall|a: u64| #[trigger] final(self).balance(a) == old(self).balance(a),
    ;
}

/// Balances held in memory, with a minimum balance that a payer must keep.
pub struct Balances {
    accounts: Table<u64, u64>,
    existential_deposit: u64,
}

impl Balances {
    /// The free balance of `who` as the table holds it; absent means zero.
    pub closed spec fn free(&self, who: u64) -> nat {
        if self.accounts@.contains_key(who) {
            self.accounts@[who] as nat
        } else {
            0
        }
    }

    /// The minimum balance a payer must keep.
    pub closed spec fn reserve(&self) -> nat {
        self.existential_deposit as nat
    }

    pub closed spec fn wf(&self) -> bool {
        self.accounts.wf()
    }

    /// An empty ledger whose payers must keep `existential_deposit`.
    pub fn new(existential_deposit: u64) -> (r: Self)
        ensures
            r.wf(),
            r.reserve() == existential_deposit,
            forall|a: u64| #[trigger] r.free(a) == 0,
    {
        Balances { accounts: Table::new(), existential_deposit }
    }

    /// The minimum balance a payer must keep.
    pub fn existential_deposit(&self) -> (r: u64)
        ensures
            r == self.reserve(),
    {
        self.existential_deposit
    }

    /// The free balance of `who`.
    pub fn free_balance(&self, who: u64) -> (r: u64)
        requires
            self.wf(),
        ensures
            r == self.free(who),
    {
        match self.accounts.get(&who) {
            Some(b) => *b,
            None => 0,
        }
    }

    /// Sets the free balance of `who`.
    pub fn set_balance(&mut self, who: u64, amount: u64)
        requires
            old(self).wf(),
        ensures
            final(self).wf(),
            final(self).reserve() == old(self).reserve(),
            final(self).free(who) == amount,
            forall|a: u64| a != who ==> #[trigger] final(self).free(a) == old(self).free(a),
    {
        self.accounts.set(who, amount);
    }

    /// Moves `amount` from `from` to `to`, keeping the minimum balance on `from`.
    pub fn transfer_keep_alive(&mut self, from: u64, to: u64, amount: u64) -> (r: Result<
        (),
        BalanceError,
    >)
        requires
            old(self).wf(),
            from != to,
        ensures
            final(self).wf(),
            final(self).reserve() == old(self).reserve(),
            old(self).free(from) < amount + old(self).reserve() ==> r == Err::<(), BalanceError>(
                BalanceError::InsufficientBalance,
            ),
            old(self).free(from) >= amount + old(self).reserve() && old(self).free(to) + amount
                > u64::MAX ==> r == Err::<(), BalanceError>(BalanceError::Overflow),
            old(self).free(from) >= amount + old(self).reserve() && old(self).free(to) + amount
                <= u64::MAX ==> r is Ok,
            r is Ok ==> final(self).free(from) + amount == old(self).free(from) && final(self).free(
                to,
            ) == old(self).free(to) + amount,
            r is Ok ==> forall|a: u64|
                a != from && a != to ==> #[trigger] final(self).free(a) == old(self).free(a),
            r is Err ==> *final(self) == *old(self),
    {
        let payer = self.free_balance(from);
        if payer < amount || payer - amount < self.existential_deposit {
            return Err(BalanceError::InsufficientBalance);
        }
        let payee = self.free_balance(to);
        match payee.checked_add(amount) {
            None => Err(BalanceError::Overflow),
            Some(credited) => {
                self.accounts.set(from, payer - amount);
                self.accounts.set(to, credited);
                Ok(())
            },
        }
    }
}

impl Currency for Balances {
    open spec fn ready(&self) -> bool {
        self.wf()
    }

    open spec fn balance(&self, who: u64) -> nat {
        self.free(who)
    }

    fn transfer(&mut self, from: u64, to: u64, amount: u64) -> (r: Result<(), BalanceError>) {
        self.transfer_keep_alive(from, to, amount)
    }
}

} // verus!
