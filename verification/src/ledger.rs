//! The currency ledger: account balances and the synchronous transfer that
//! the marketplace's buy operation settles through. A transfer either moves
//! the full amount or fails with a typed error and leaves every balance
//! unchanged.

use vstd::prelude::*;

verus! {

/// A currency transfer can fail for want of funds, or because the recipient's
/// balance cannot hold the amount.
#[derive(Clone, Copy, PartialEq, Eq, Debug)]
pub enum LedgerError {
    InsufficientFunds,
    ReceiverOverflow,
}

#[derive(Clone, Copy, PartialEq, Eq, Debug)]
struct AccountBalance {
    account: u64,
    amount: u128,
}

/// The balances table. An account with no entry holds a zero balance.
pub struct Ledger {
    accounts: Vec<AccountBalance>,
}

impl Ledger {
    /// At most one entry per account.
    pub closed spec fn wf(self) -> bool {
        forall|i: int, j: int|
            0 <= i < j < self.accounts@.len() ==> self.accounts@[i].account
                != self.accounts@[j].account
    }

    spec fn spec_has(self, account: u64) -> bool {
        exists|i: int|
            0 <= i < self.accounts@.len() && (#[trigger] self.accounts@[i]).account == account
    }

    spec fn spec_idx(self, account: u64) -> int {
        choose|i: int|
            0 <= i < self.accounts@.len() && (#[trigger] self.accounts@[i]).account == account
    }

    /// The balance held by an account; zero where no entry exists.
    pub closed spec fn bal(self, account: u64) -> u128 {
        if self.spec_has(account) {
            self.accounts@[self.spec_idx(account)].amount
        } else {
            0
        }
    }

    proof fn lemma_idx_is(self, account: u64, j: int)
        requires
            self.wf(),
            0 <= j < self.accounts@.len(),
            self.accounts@[j].account == account,
        ensures
            self.spec_has(account),
            self.spec_idx(account) == j,
            self.bal(account) == self.accounts@[j].amount,
    {
        assert(self.spec_has(account));
        let c = self.spec_idx(account);
        assert(0 <= c < self.accounts@.len() && self.accounts@[c].account == account);
        if c != j {
            assert(false);
        }
    }

    /// An empty ledger: every account holds zero.
    pub fn new() -> (r: Ledger)
        ensures
            r.wf(),
            forall|a: u64| r.bal(a) == 0,
    {
        let l = Ledger { accounts: Vec::new() };
        proof {
            assert forall|a: u64| l.bal(a) == 0 by {
                assert(!l.spec_has(a));
            }
        }
        l
    }

    fn find(&self, account: u64) -> (r: Option<usize>)
        requires
            self.wf(),
        ensures
            match r {
                Some(i) => i < self.accounts@.len() && self.accounts@[i as int].account == account
                    && self.spec_has(account) && self.spec_idx(account) == i,
                None => !self.spec_has(account),
            },
    {
        let n = self.accounts.len();
        let mut k: usize = 0;
        while k < n
            invariant
                n == self.accounts@.len(),
                k <= n,
                self.wf(),
                forall|j: int| 0 <= j < k ==> (#[trigger] self.accounts@[j]).account != account,
            decreases n - k,
        {
            if self.accounts[k].account == account {
                proof {
                    self.lemma_idx_is(account, k as int);
                }
                return Some(k);
            }
            k = k + 1;
        }
        proof {
            if self.spec_has(account) {
                let w = self.spec_idx(account);
                assert(self.accounts@[w].account == account);
                assert(false);
            }
        }
        None
    }

    /// Overwrite an account's balance outright, creating the entry if none
    /// exists. Every other balance is untouched.
    pub fn force_set_balance(&mut self, account: u64, amount: u128)
        requires
            old(self).wf(),
        ensures
            final(self).wf(),
            final(self).bal(account) == amount,
            forall|a: u64| a != account ==> final(self).bal(a) == old(self).bal(a),
    {
        let found = self.find(account);
        let ghost pre = *self;
        match found {
            Some(i) => {
                self.accounts[i] = AccountBalance { account, amount };
                proof {
                    self.lemma_idx_is(account, i as int);
                    assert forall|a: u64| a != account implies self.bal(a) == pre.bal(a) by {
                        Self::lemma_other_balance(pre, *self, i as int, a);
                    }
                }
            },
            None => {
                self.accounts.push(AccountBalance { account, amount });
                proof {
                    let n = pre.accounts@.len();
                    self.lemma_idx_is(account, n as int);
                    assert forall|a: u64| a != account implies self.bal(a) == pre.bal(a) by {
                        if pre.spec_has(a) {
                            let j = pre.spec_idx(a);
                            self.lemma_idx_is(a, j);
                        } else {
                            if self.spec_has(a) {
                                let j = self.spec_idx(a);
                                assert(self.accounts@[j].account == a);
                                assert(j == n as int);
                                assert(false);
                            }
                        }
                    }
                }
            },
        }
    }

    proof fn lemma_other_balance(pre: Ledger, post: Ledger, i: int, a: u64)
        requires
            pre.wf(),
            post.wf(),
            0 <= i < pre.accounts@.len(),
            post.accounts@ == pre.accounts@.update(i, post.accounts@[i]),
            a != pre.accounts@[i].account,
            a != post.accounts@[i].account,
        ensures
            post.bal(a) == pre.bal(a),
    {
        if pre.spec_has(a) {
            let j = pre.spec_idx(a);
            assert(post.accounts@[j].account == a);
            post.lemma_idx_is(a, j);
        } else {
            if post.spec_has(a) {
                let j = post.spec_idx(a);
                assert(pre.accounts@[j].account == a);
                assert(false);
            }
        }
    }

    /// The balance an account can spend.
    pub fn free_balance(&self, account: u64) -> (r: u128)
        requires
            self.wf(),
        ensures
            r == self.bal(account),
    {
        match self.find(account) {
            Some(i) => self.accounts[i].amount,
            None => 0,
        }
    }

    /// Move `amount` from one account to another, all or nothing: on any
    /// failure every balance is exactly as before. Insufficient funds are
    /// reported before a recipient overflow.
    pub fn transfer(&mut self, from: u64, to: u64, amount: u128) -> (r: Result<(), LedgerError>)
        requires
            old(self).wf(),
        ensures
            final(self).wf(),
            r == Ok::<(), LedgerError>(()) <==> (old(self).bal(from) >= amount && (from == to
                || old(self).bal(to) + amount <= u128::MAX)),
            old(self).bal(from) < amount ==> r == Err::<(), LedgerError>(
                LedgerError::InsufficientFunds,
            ),
            (old(self).bal(from) >= amount && from != to && old(self).bal(to) + amount
                > u128::MAX) ==> r == Err::<(), LedgerError>(LedgerError::ReceiverOverflow),
            r is Err ==> *final(self) == *old(self),
            (r is Ok && from != to) ==> final(self).bal(from) == old(self).bal(from) - amount
                && final(self).bal(to) == old(self).bal(to) + amount,
            (r is Ok && from == to) ==> *final(self) == *old(self),
            forall|a: u64|
                a != from && a != to ==> final(self).bal(a) == old(self).bal(a),
    {
        let from_balance = self.free_balance(from);
        if from_balance < amount {
            return Err(LedgerError::InsufficientFunds);
        }
        if from == to {
            return Ok(());
        }
        let to_balance = self.free_balance(to);
        if to_balance > u128::MAX - amount {
            return Err(LedgerError::ReceiverOverflow);
        }
        self.force_set_balance(from, from_balance - amount);
        self.force_set_balance(to, to_balance + amount);
        Ok(())
    }
}

} // verus!
