use vstd::prelude::*;

use crate::errors::Error;

verus! {

/// One account's recorded balance.
#[derive(Clone, Copy, Debug, PartialEq, Eq)]
struct BalanceEntry {
    account: u64,
    amount: u128,
}

/// First-match balance lookup over the entry list; 0 for an absent account.
spec fn bal_in(s: Seq<BalanceEntry>, a: u64) -> u128
    decreases s.len(),
{
    if s.len() == 0 {
        0
    } else if s[0].account == a {
        s[0].amount
    } else {
        bal_in(s.drop_first(), a)
    }
}

/// The sum of all recorded balances, as an unbounded integer.
spec fn total_in(s: Seq<BalanceEntry>) -> int
    decreases s.len(),
{
    if s.len() == 0 {
        0
    } else {
        s[0].amount + total_in(s.drop_first())
    }
}

/// Each account appears at most once.
spec fn uniq(s: Seq<BalanceEntry>) -> bool {
    forall|i: int, j: int| 0 <= i < j < s.len() ==> s[i].account != s[j].account
}

proof fn lemma_total_nonneg(s: Seq<BalanceEntry>)
    ensures
        total_in(s) >= 0,
    decreases s.len(),
{
    if s.len() != 0 {
        lemma_total_nonneg(s.drop_first());
    }
}

proof fn lemma_bal_le_total(s: Seq<BalanceEntry>, a: u64)
    ensures
        bal_in(s, a) <= total_in(s),
    decreases s.len(),
{
    if s.len() != 0 {
        if s[0].account == a {
            lemma_total_nonneg(s.drop_first());
        } else {
            lemma_bal_le_total(s.drop_first(), a);
        }
    }
}

/// The first entry of an account gives that account's balance.
proof fn lemma_bal_at(s: Seq<BalanceEntry>, i: int)
    requires
        0 <= i < s.len(),
        forall|j: int| 0 <= j < i ==> s[j].account != s[i].account,
    ensures
        bal_in(s, s[i].account) == s[i].amount,
    decreases i,
{
    if i > 0 {
        assert forall|j: int| 0 <= j < i - 1 implies #[trigger] s.drop_first()[j].account
            != s.drop_first()[i - 1].account by {
            assert(s.drop_first()[j] == s[j + 1]);
        }
        lemma_bal_at(s.drop_first(), i - 1);
    }
}

proof fn lemma_bal_absent(s: Seq<BalanceEntry>, a: u64)
    requires
        forall|j: int| 0 <= j < s.len() ==> s[j].account != a,
    ensures
        bal_in(s, a) == 0,
    decreases s.len(),
{
    if s.len() != 0 {
        lemma_bal_absent(s.drop_first(), a);
    }
}

/// Replacing the entry of one account, in place, changes that account's
/// balance alone and moves the total by the difference.
proof fn lemma_update(s: Seq<BalanceEntry>, i: int, e: BalanceEntry)
    requires
        0 <= i < s.len(),
        e.account == s[i].account,
        uniq(s),
    ensures
        uniq(s.update(i, e)),
        forall|x: u64|
            bal_in(s.update(i, e), x) == if x == e.account {
                e.amount
            } else {
                bal_in(s, x)
            },
        total_in(s.update(i, e)) == total_in(s) - s[i].amount + e.amount,
    decreases s.len(),
{
    let t = s.update(i, e);
    assert forall|p: int, q: int| 0 <= p < q < t.len() implies t[p].account != t[q].account by {
        assert(t[p].account == s[p].account);
        assert(t[q].account == s[q].account);
    }
    if i == 0 {
        assert(t.drop_first() =~= s.drop_first());
        assert forall|x: u64|
            bal_in(t, x) == (if x == e.account {
                e.amount
            } else {
                bal_in(s, x)
            }) by {
            if x != e.account {
                assert(bal_in(t, x) == bal_in(t.drop_first(), x));
                assert(bal_in(s, x) == bal_in(s.drop_first(), x));
            }
        }
    } else {
        assert(t.drop_first() =~= s.drop_first().update(i - 1, e));
        assert forall|p: int, q: int|
            0 <= p < q < s.drop_first().len() implies s.drop_first()[p].account
            != s.drop_first()[q].account by {
            assert(s.drop_first()[p] == s[p + 1]);
            assert(s.drop_first()[q] == s[q + 1]);
        }
        lemma_update(s.drop_first(), i - 1, e);
        assert(t[0] == s[0]);
        assert(s[0].account != s[i].account);
        assert forall|x: u64|
            bal_in(t, x) == (if x == e.account {
                e.amount
            } else {
                bal_in(s, x)
            }) by {
            if x == s[0].account {
            } else {
                assert(bal_in(t, x) == bal_in(t.drop_first(), x));
                assert(bal_in(s, x) == bal_in(s.drop_first(), x));
            }
        }
    }
}

/// Appending an entry for a fresh account records its balance and adds its
/// amount to the total, leaving every other balance as it was.
proof fn lemma_push(s: Seq<BalanceEntry>, e: BalanceEntry)
    requires
        forall|j: int| 0 <= j < s.len() ==> s[j].account != e.account,
    ensures
        uniq(s) ==> uniq(s.push(e)),
        forall|x: u64|
            bal_in(s.push(e), x) == if x == e.account {
                e.amount
            } else {
                bal_in(s, x)
            },
        total_in(s.push(e)) == total_in(s) + e.amount,
    decreases s.len(),
{
    let t = s.push(e);
    if uniq(s) {
        assert forall|p: int, q: int| 0 <= p < q < t.len() implies t[p].account != t[q].account by {
            if q < s.len() {
                assert(t[p] == s[p]);
                assert(t[q] == s[q]);
            } else {
                assert(t[p] == s[p]);
                assert(t[q] == e);
            }
        }
    }
    if s.len() == 0 {
        assert(t.len() == 1);
        assert(t[0] == e);
        assert(t.drop_first() =~= Seq::<BalanceEntry>::empty());
        assert(total_in(t.drop_first()) == 0);
        assert(total_in(t) == e.amount + 0);
        assert forall|x: u64|
            bal_in(t, x) == (if x == e.account {
                e.amount
            } else {
                bal_in(s, x)
            }) by {
            assert(bal_in(t.drop_first(), x) == 0);
            assert(bal_in(s, x) == 0);
        }
    } else {
        assert(t[0] == s[0]);
        assert(t.drop_first() =~= s.drop_first().push(e));
        assert forall|j: int|
            0 <= j < s.drop_first().len() implies s.drop_first()[j].account != e.account by {
            assert(s.drop_first()[j] == s[j + 1]);
        }
        lemma_push(s.drop_first(), e);
        assert forall|x: u64|
            bal_in(t, x) == (if x == e.account {
                e.amount
            } else {
                bal_in(s, x)
            }) by {
            if x == s[0].account {
            } else {
                assert(bal_in(t, x) == bal_in(t.drop_first(), x));
                assert(bal_in(s, x) == bal_in(s.drop_first(), x));
            }
        }
    }
}

/// The currency side of Settlement: a ledger of account balances supporting
/// balance-checked transfer that preserves the payer's minimum-existence
/// balance. Value moves all-or-nothing; the total in circulation never
/// changes except through explicit issuance with `deposit`.
pub struct Balances {
    entries: Vec<BalanceEntry>,
    min_balance: u128,
    total: u128,
}

impl Balances {
    /// The balance recorded for `a`; 0 if the account was never endowed.
    pub closed spec fn spec_balance(&self, a: u64) -> u128 {
        bal_in(self.entries@, a)
    }

    /// The sum of all balances.
    pub closed spec fn spec_total(&self) -> int {
        total_in(self.entries@)
    }

    /// The minimum balance a payer must retain after a transfer.
    pub closed spec fn spec_min_balance(&self) -> u128 {
        self.min_balance
    }

    /// Accounts are recorded at most once, and the total in circulation fits
    /// the balance type, so no credit can overflow.
    pub closed spec fn wf(&self) -> bool {
        uniq(self.entries@) && total_in(self.entries@) == self.total as int
    }

    /// Whether `from` can pay `amount` while keeping its minimum-existence
    /// balance.
    pub open spec fn can_withdraw(&self, from: u64, amount: u128) -> bool {
        self.spec_balance(from) >= amount + self.spec_min_balance()
    }

    pub fn new(min_balance: u128) -> (r: Balances)
        ensures
            r.wf(),
            r.spec_min_balance() == min_balance,
            r.spec_total() == 0,
            forall|a: u64| r.spec_balance(a) == 0,
    {
        Balances { entries: Vec::new(), min_balance, total: 0 }
    }

    /// Index of the entry for `a`, if the account is recorded.
    fn find(&self, a: u64) -> (r: Option<usize>)
        ensures
            match r {
                Some(i) => i < self.entries@.len() && self.entries@[i as int].account == a
                    && forall|j: int| 0 <= j < i ==> self.entries@[j].account != a,
                None => forall|j: int| 0 <= j < self.entries@.len() ==> self.entries@[j].account
                    != a,
            },
    {
        let mut i: usize = 0;
        while i < self.entries.len()
            invariant
                i <= self.entries@.len(),
                forall|j: int| 0 <= j < i ==> self.entries@[j].account != a,
            decreases self.entries@.len() - i,
        {
            if self.entries[i].account == a {
                return Some(i);
            }
            i = i + 1;
        }
        None
    }

    pub fn balance_of(&self, a: u64) -> (r: u128)
        ensures
            r == self.spec_balance(a),
    {
        match self.find(a) {
            Some(i) => {
                proof {
                    lemma_bal_at(self.entries@, i as int);
                }
                self.entries[i].amount
            },
            None => {
                proof {
                    lemma_bal_absent(self.entries@, a);
                }
                0
            },
        }
    }

    /// Issues `amount` new units to `a`. This is the host's genesis and
    /// faucet primitive; marketplace operations never create value.
    pub fn deposit(&mut self, a: u64, amount: u128)
        requires
            old(self).wf(),
            old(self).spec_total() + amount <= u128::MAX,
        ensures
            final(self).wf(),
            final(self).spec_min_balance() == old(self).spec_min_balance(),
            final(self).spec_total() == old(self).spec_total() + amount,
            forall|x: u64|
                final(self).spec_balance(x) as int == old(self).spec_balance(x) + (if x == a {
                    amount as int
                } else {
                    0
                }),
    {
        self.total = self.total + amount;
        match self.find(a) {
            Some(i) => {
                proof {
                    lemma_bal_at(self.entries@, i as int);
                    lemma_bal_le_total(self.entries@, a);
                }
                let cur: u128 = self.entries[i].amount;
                let e = BalanceEntry { account: a, amount: cur + amount };
                self.entries[i] = e;
                proof {
                    lemma_update(old(self).entries@, i as int, e);
                }
            },
            None => {
                proof {
                    lemma_bal_absent(self.entries@, a);
                }
                let e = BalanceEntry { account: a, amount };
                self.entries.push(e);
                proof {
                    lemma_push(old(self).entries@, e);
                }
            },
        }
    }

    /// The total currency in circulation across all accounts.
    pub fn total_issuance(&self) -> (r: u128)
        requires
            self.wf(),
        ensures
            r as int == self.spec_total(),
    {
        self.total
    }

    /// Removes `amount` from `a`'s balance. Internal: callers must have
    /// checked coverage already.
    fn debit(&mut self, a: u64, amount: u128)
        requires
            old(self).wf(),
            amount <= old(self).spec_balance(a),
        ensures
            final(self).wf(),
            final(self).spec_min_balance() == old(self).spec_min_balance(),
            final(self).spec_total() == old(self).spec_total() - amount,
            forall|x: u64|
                final(self).spec_balance(x) as int == old(self).spec_balance(x) - (if x == a {
                    amount as int
                } else {
                    0
                }),
    {
        if amount == 0 {
            return ;
        }
        proof {
            lemma_bal_le_total(self.entries@, a);
        }
        self.total = self.total - amount;
        let i: usize = match self.find(a) {
            Some(i) => i,
            None => {
                proof {
                    lemma_bal_absent(self.entries@, a);
                }
                vstd::pervasive::unreached()
            },
        };
        proof {
            lemma_bal_at(self.entries@, i as int);
        }
        let cur: u128 = self.entries[i].amount;
        let e = BalanceEntry { account: a, amount: cur - amount };
        self.entries[i] = e;
        proof {
            lemma_update(old(self).entries@, i as int, e);
        }
    }

    /// Moves `amount` from `from` to `to`, all or nothing. Fails with
    /// `InsufficientFunds` exactly when `from` cannot cover `amount` while
    /// keeping the minimum-existence balance; on failure no balance changes.
    pub fn transfer_currency(&mut self, from: u64, to: u64, amount: u128) -> (r: Result<(), Error>)
        requires
            old(self).wf(),
        ensures
            final(self).wf(),
            final(self).spec_min_balance() == old(self).spec_min_balance(),
            final(self).spec_total() == old(self).spec_total(),
            r is Ok <==> old(self).can_withdraw(from, amount),
            r is Err ==> r == Err::<(), Error>(Error::InsufficientFunds),
            r is Err ==> forall|x: u64| final(self).spec_balance(x) == old(self).spec_balance(x),
            r is Ok ==> forall|x: u64|
                final(self).spec_balance(x) as int == old(self).spec_balance(x) + (if x == to {
                    amount as int
                } else {
                    0
                }) - (if x == from {
                    amount as int
                } else {
                    0
                }),
    {
        let fb: u128 = self.balance_of(from);
        if fb < amount {
            return Err(Error::InsufficientFunds);
        }
        if fb - amount < self.min_balance {
            return Err(Error::InsufficientFunds);
        }
        if from == to {
            return Ok(());
        }
        self.debit(from, amount);
        self.deposit(to, amount);
        Ok(())
    }

    /// The settlement step of an accepted bid: the payer's full bid goes to
    /// the seller, and the previously highest bidder (if any) is refunded its
    /// outbid amount from the seller, in one atomic step. Fails with
    /// `InsufficientFunds` exactly when the payer cannot cover the bid with
    /// its minimum-existence balance kept, or the seller's balance after
    /// receiving the bid could not cover the refund with its own
    /// minimum-existence balance kept; on failure no balance changes.
    pub fn transfer_with_refund(
        &mut self,
        payer: u64,
        seller: u64,
        prev: u64,
        amount: u128,
        refund: u128,
    ) -> (r: Result<(), Error>)
        requires
            old(self).wf(),
            payer != seller,
            prev != seller,
            refund < amount,
        ensures
            final(self).wf(),
            final(self).spec_min_balance() == old(self).spec_min_balance(),
            final(self).spec_total() == old(self).spec_total(),
            r is Ok <==> (old(self).can_withdraw(payer, amount) && old(self).spec_balance(seller)
                + amount - refund >= old(self).spec_min_balance()),
            r is Err ==> r == Err::<(), Error>(Error::InsufficientFunds),
            r is Err ==> forall|x: u64| final(self).spec_balance(x) == old(self).spec_balance(x),
            r is Ok ==> forall|x: u64|
                final(self).spec_balance(x) as int == old(self).spec_balance(x) - (if x == payer {
                    amount as int
                } else {
                    0
                }) + (if x == seller {
                    (amount - refund) as int
                } else {
                    0
                }) + (if x == prev {
                    refund as int
                } else {
                    0
                }),
    {
        let pb: u128 = self.balance_of(payer);
        if pb < amount {
            return Err(Error::InsufficientFunds);
        }
        if pb - amount < self.min_balance {
            return Err(Error::InsufficientFunds);
        }
        let sb: u128 = self.balance_of(seller);
        let net: u128 = amount - refund;
        let seller_covered: bool = if sb >= self.min_balance {
            true
        } else {
            net >= self.min_balance - sb
        };
        if !seller_covered {
            return Err(Error::InsufficientFunds);
        }
        self.debit(payer, amount);
        self.deposit(seller, net);
        self.deposit(prev, refund);
        Ok(())
    }
}

} // verus!
