//! Balance-per-account storage with total-supply bookkeeping.
//!
//! Only nonzero balances are stored: an absent record is the same as a zero
//! balance, and decreasing a balance to exactly zero removes its record. The
//! running total always equals the sum of all stored balances.

use vstd::prelude::*;

use crate::account::AccountId;
use crate::error::TransferError;

verus! {

/// One stored balance record.
struct BalanceRecord {
    account: AccountId,
    amount: u128,
}

/// The balance stored for `account` in a sequence of records; absent accounts
/// hold zero.
pub open spec fn stored_balance(s: Seq<(Seq<u8>, u128)>, account: Seq<u8>) -> u128
    decreases s.len(),
{
    if s.len() == 0 {
        0
    } else if s.last().0 == account {
        s.last().1
    } else {
        stored_balance(s.drop_last(), account)
    }
}

/// The sum of all stored balances.
pub open spec fn sum_of_balances(s: Seq<(Seq<u8>, u128)>) -> int
    decreases s.len(),
{
    if s.len() == 0 {
        0
    } else {
        sum_of_balances(s.drop_last()) + s.last().1
    }
}

/// Each account has at most one record.
pub open spec fn distinct_accounts(s: Seq<(Seq<u8>, u128)>) -> bool {
    forall|i: int, j: int| 0 <= i < j < s.len() ==> s[i].0 != s[j].0
}

/// Only nonzero balances are stored.
pub open spec fn all_nonzero(s: Seq<(Seq<u8>, u128)>) -> bool {
    forall|i: int| 0 <= i < s.len() ==> s[i].1 > 0
}

proof fn lemma_distinct_drop_last(s: Seq<(Seq<u8>, u128)>)
    requires
        distinct_accounts(s),
        s.len() > 0,
    ensures
        distinct_accounts(s.drop_last()),
{
    assert forall|i: int, j: int|
        0 <= i < j < s.drop_last().len() implies s.drop_last()[i].0 != s.drop_last()[j].0 by {
        assert(s.drop_last()[i] == s[i]);
        assert(s.drop_last()[j] == s[j]);
    }
}

proof fn lemma_sum_nonneg(s: Seq<(Seq<u8>, u128)>)
    ensures
        sum_of_balances(s) >= 0,
    decreases s.len(),
{
    if s.len() > 0 {
        lemma_sum_nonneg(s.drop_last());
    }
}

/// Every single stored balance is bounded by the sum of all of them.
proof fn lemma_record_le_sum(s: Seq<(Seq<u8>, u128)>, i: int)
    requires
        0 <= i < s.len(),
    ensures
        s[i].1 <= sum_of_balances(s),
    decreases s.len(),
{
    lemma_sum_nonneg(s.drop_last());
    if i < s.len() - 1 {
        assert(s.drop_last()[i] == s[i]);
        lemma_record_le_sum(s.drop_last(), i);
    }
}

/// With distinct accounts, the stored balance of the account of record `i`
/// is the amount of record `i`.
proof fn lemma_stored_balance_index(s: Seq<(Seq<u8>, u128)>, i: int)
    requires
        distinct_accounts(s),
        0 <= i < s.len(),
    ensures
        stored_balance(s, s[i].0) == s[i].1,
    decreases s.len(),
{
    if i < s.len() - 1 {
        lemma_distinct_drop_last(s);
        assert(s.drop_last()[i] == s[i]);
        lemma_stored_balance_index(s.drop_last(), i);
    }
}

/// An account that matches no record has stored balance zero.
proof fn lemma_stored_balance_absent(s: Seq<(Seq<u8>, u128)>, account: Seq<u8>)
    requires
        forall|i: int| 0 <= i < s.len() ==> s[i].0 != account,
    ensures
        stored_balance(s, account) == 0,
    decreases s.len(),
{
    if s.len() > 0 {
        assert forall|i: int| 0 <= i < s.drop_last().len() implies s.drop_last()[i].0
            != account by {
            assert(s.drop_last()[i] == s[i]);
        }
        lemma_stored_balance_absent(s.drop_last(), account);
    }
}

proof fn lemma_sum_update(s: Seq<(Seq<u8>, u128)>, i: int, v: (Seq<u8>, u128))
    requires
        0 <= i < s.len(),
    ensures
        sum_of_balances(s.update(i, v)) == sum_of_balances(s) - s[i].1 + v.1,
    decreases s.len(),
{
    if i == s.len() - 1 {
        assert(s.update(i, v).drop_last() =~= s.drop_last());
    } else {
        assert(s.update(i, v).drop_last() =~= s.drop_last().update(i, v));
        lemma_sum_update(s.drop_last(), i, v);
    }
}

proof fn lemma_sum_remove(s: Seq<(Seq<u8>, u128)>, i: int)
    requires
        0 <= i < s.len(),
    ensures
        sum_of_balances(s.remove(i)) == sum_of_balances(s) - s[i].1,
    decreases s.len(),
{
    if i == s.len() - 1 {
        assert(s.remove(i) =~= s.drop_last());
    } else {
        assert(s.remove(i).drop_last() =~= s.drop_last().remove(i));
        assert(s.remove(i).last() == s.last());
        lemma_sum_remove(s.drop_last(), i);
    }
}

proof fn lemma_sum_push(s: Seq<(Seq<u8>, u128)>, v: (Seq<u8>, u128))
    ensures
        sum_of_balances(s.push(v)) == sum_of_balances(s) + v.1,
{
    assert(s.push(v).drop_last() =~= s);
}

/// Updating record `i` in place (same account) changes only that account's
/// stored balance.
proof fn lemma_stored_balance_update(
    s: Seq<(Seq<u8>, u128)>,
    i: int,
    v: (Seq<u8>, u128),
    account: Seq<u8>,
)
    requires
        distinct_accounts(s),
        0 <= i < s.len(),
        v.0 == s[i].0,
    ensures
        stored_balance(s.update(i, v), account) == if account == v.0 {
            v.1
        } else {
            stored_balance(s, account)
        },
    decreases s.len(),
{
    lemma_distinct_drop_last(s);
    if i == s.len() - 1 {
        assert(s.update(i, v).drop_last() =~= s.drop_last());
    } else {
        assert(s.update(i, v).drop_last() =~= s.drop_last().update(i, v));
        assert(s.update(i, v).last() == s.last());
        assert(s.drop_last()[i] == s[i]);
        lemma_stored_balance_update(s.drop_last(), i, v, account);
        if account == v.0 {
            // the last record's account differs from v.0, so lookup recurses
            assert(s.last().0 != s[i].0);
        }
    }
}

/// Removing record `i` zeroes that account's stored balance and keeps every
/// other account's.
proof fn lemma_stored_balance_remove(s: Seq<(Seq<u8>, u128)>, i: int, account: Seq<u8>)
    requires
        distinct_accounts(s),
        0 <= i < s.len(),
    ensures
        stored_balance(s.remove(i), account) == if account == s[i].0 {
            0u128
        } else {
            stored_balance(s, account)
        },
    decreases s.len(),
{
    lemma_distinct_drop_last(s);
    if i == s.len() - 1 {
        assert(s.remove(i) =~= s.drop_last());
        if account == s[i].0 {
            assert forall|j: int| 0 <= j < s.drop_last().len() implies s.drop_last()[j].0
                != account by {
                assert(s.drop_last()[j] == s[j]);
            }
            lemma_stored_balance_absent(s.drop_last(), account);
        }
    } else {
        assert(s.remove(i).drop_last() =~= s.drop_last().remove(i));
        assert(s.remove(i).last() == s.last());
        assert(s.drop_last()[i] == s[i]);
        lemma_stored_balance_remove(s.drop_last(), i, account);
        if account == s[i].0 {
            assert(s.last().0 != s[i].0);
        }
    }
}

/// Appending a record for a fresh account gives it that balance and keeps
/// every other account's.
proof fn lemma_stored_balance_push(s: Seq<(Seq<u8>, u128)>, v: (Seq<u8>, u128), account: Seq<u8>)
    ensures
        stored_balance(s.push(v), account) == if account == v.0 {
            v.1
        } else {
            stored_balance(s, account)
        },
{
    assert(s.push(v).drop_last() =~= s);
}

/// Balance-per-account storage together with the running total supply.
pub struct Ledger {
    records: Vec<BalanceRecord>,
    total: u128,
}

impl View for Ledger {
    type V = Seq<(Seq<u8>, u128)>;

    closed spec fn view(&self) -> Seq<(Seq<u8>, u128)> {
        self.records@.map_values(|r: BalanceRecord| (r.account@, r.amount))
    }
}

impl Ledger {
    /// The running total supply.
    pub closed spec fn supply(&self) -> u128 {
        self.total
    }

    /// The balance of `account`; zero when no record is stored.
    pub open spec fn balance(&self, account: Seq<u8>) -> u128 {
        stored_balance(self@, account)
    }

    /// Well-formedness: accounts are distinct, zero balances are not stored,
    /// and the running total equals the sum of all stored balances.
    pub open spec fn wf(&self) -> bool {
        &&& distinct_accounts(self@)
        &&& all_nonzero(self@)
        &&& self.supply() as int == sum_of_balances(self@)
    }

    /// An empty ledger: no accounts, no supply.
    pub fn new() -> (r: Ledger)
        ensures
            r.wf(),
            r.supply() == 0,
            r@.len() == 0,
            forall|a: Seq<u8>| r.balance(a) == 0,
    {
        let l = Ledger { records: Vec::new(), total: 0 };
        proof {
            assert(l@ =~= Seq::<(Seq<u8>, u128)>::empty());
        }
        l
    }

    /// The index of the record for `account`, if one is stored.
    fn find(&self, account: &AccountId) -> (r: Option<usize>)
        ensures
            match r {
                Some(i) => i < self@.len() && self@[i as int].0 == account@,
                None => forall|i: int| 0 <= i < self@.len() ==> self@[i].0 != account@,
            },
    {
        let mut i: usize = 0;
        while i < self.records.len()
            invariant
                i <= self.records.len(),
                self@.len() == self.records@.len(),
                forall|j: int| 0 <= j < i ==> self@[j].0 != account@,
            decreases self.records.len() - i,
        {
            if self.records[i].account.is_same(account) {
                return Some(i);
            }
            i = i + 1;
        }
        None
    }

    /// The balance of `account`, zero if no record exists. Never fails.
    pub fn balance_of(&self, account: &AccountId) -> (r: u128)
        requires
            self.wf(),
        ensures
            r == self.balance(account@),
    {
        match self.find(account) {
            Some(i) => {
                proof {
                    lemma_stored_balance_index(self@, i as int);
                }
                self.records[i].amount
            },
            None => {
                proof {
                    lemma_stored_balance_absent(self@, account@);
                }
                0
            },
        }
    }

    /// The running total. Never fails.
    pub fn total_supply(&self) -> (r: u128)
        ensures
            r == self.supply(),
    {
        self.total
    }

    /// Adds `amount` to the account's balance and to the total supply.
    /// Fails with `Overflow`, mutating nothing, exactly when the addition
    /// would exceed the integer width: under well-formedness the supply
    /// bounds every balance, so checking the supply covers both additions.
    pub fn increase_balance(&mut self, account: &AccountId, amount: u128) -> (r: Result<
        (),
        TransferError,
    >)
        requires
            old(self).wf(),
        ensures
            final(self).wf(),
            match r {
                Ok(()) => {
                    &&& old(self).supply() + amount <= u128::MAX
                    &&& final(self).supply() == old(self).supply() + amount
                    &&& final(self).balance(account@) == old(self).balance(account@) + amount
                    &&& (forall|a: Seq<u8>|
                        a != account@ ==> final(self).balance(a) == old(self).balance(a))
                },
                Err(e) => {
                    &&& e == TransferError::Overflow
                    &&& old(self).supply() + amount > u128::MAX
                    &&& *final(self) == *old(self)
                },
            },
    {
        if amount > u128::MAX - self.total {
            return Err(TransferError::Overflow);
        }
        let ghost pre = self@;
        match self.find(account) {
            Some(i) => {
                proof {
                    lemma_stored_balance_index(pre, i as int);
                    lemma_record_le_sum(pre, i as int);
                }
                let stored = self.records[i].amount;
                let moved = self.records.remove(i);
                self.records.insert(i, BalanceRecord { account: moved.account, amount: stored + amount });
                self.total = self.total + amount;
                proof {
                    let v = (account@, (stored + amount) as u128);
                    assert(self@ =~= pre.update(i as int, v));
                    lemma_sum_update(pre, i as int, v);
                    assert forall|a: Seq<u8>|
                        a != account@ implies final(self).balance(a) == old(self).balance(a) by {
                        lemma_stored_balance_update(pre, i as int, v, a);
                    }
                    lemma_stored_balance_update(pre, i as int, v, account@);
                    assert forall|p: int, q: int|
                        0 <= p < q < self@.len() implies self@[p].0 != self@[q].0 by {
                        assert(self@[p].0 == pre[p].0);
                        assert(self@[q].0 == pre[q].0);
                    }
                }
                Ok(())
            },
            None => {
                proof {
                    lemma_stored_balance_absent(pre, account@);
                }
                if amount > 0 {
                    self.records.push(BalanceRecord { account: account.duplicate(), amount });
                    self.total = self.total + amount;
                    proof {
                        let v = (account@, amount);
                        assert(self@ =~= pre.push(v));
                        lemma_sum_push(pre, v);
                        assert forall|a: Seq<u8>|
                            a != account@ implies final(self).balance(a) == old(self).balance(
                            a,
                        ) by {
                            lemma_stored_balance_push(pre, v, a);
                        }
                        lemma_stored_balance_push(pre, v, account@);
                        assert forall|p: int, q: int|
                            0 <= p < q < self@.len() implies self@[p].0 != self@[q].0 by {
                            if q < pre.len() {
                                assert(self@[p].0 == pre[p].0);
                                assert(self@[q].0 == pre[q].0);
                            } else {
                                assert(self@[p].0 == pre[p].0);
                            }
                        }
                    }
                }
                Ok(())
            },
        }
    }

    /// Subtracts `amount` from the account's balance and from the total
    /// supply. Fails with `InsufficientBalance`, mutating nothing, exactly
    /// when `amount` exceeds the stored balance. Decreasing a balance to
    /// exactly zero removes its record.
    pub fn decrease_balance(&mut self, account: &AccountId, amount: u128) -> (r: Result<
        (),
        TransferError,
    >)
        requires
            old(self).wf(),
        ensures
            final(self).wf(),
            match r {
                Ok(()) => {
                    &&& amount <= old(self).balance(account@)
                    &&& final(self).supply() == old(self).supply() - amount
                    &&& final(self).balance(account@) == old(self).balance(account@) - amount
                    &&& (forall|a: Seq<u8>|
                        a != account@ ==> final(self).balance(a) == old(self).balance(a))
                },
                Err(e) => {
                    &&& e == TransferError::InsufficientBalance
                    &&& amount > old(self).balance(account@)
                    &&& *final(self) == *old(self)
                },
            },
    {
        let ghost pre = self@;
        match self.find(account) {
            Some(i) => {
                proof {
                    lemma_stored_balance_index(pre, i as int);
                    lemma_record_le_sum(pre, i as int);
                }
                let stored = self.records[i].amount;
                if amount > stored {
                    return Err(TransferError::InsufficientBalance);
                }
                if amount == stored {
                    // storage hygiene: a zero balance is not stored
                    let _removed = self.records.remove(i);
                    proof {
                        assert(self@ =~= pre.remove(i as int));
                        lemma_sum_remove(pre, i as int);
                        assert forall|a: Seq<u8>|
                            a != account@ implies stored_balance(self@, a) == stored_balance(
                            pre,
                            a,
                        ) by {
                            lemma_stored_balance_remove(pre, i as int, a);
                        }
                        lemma_stored_balance_remove(pre, i as int, account@);
                        assert forall|p: int, q: int|
                            0 <= p < q < self@.len() implies self@[p].0 != self@[q].0 by {
                            assert(self@[p] == pre.remove(i as int)[p]);
                            assert(self@[q] == pre.remove(i as int)[q]);
                        }
                        assert forall|p: int| 0 <= p < self@.len() implies self@[p].1 > 0 by {
                            assert(self@[p] == pre.remove(i as int)[p]);
                        }
                    }
                } else {
                    let moved = self.records.remove(i);
                    self.records.insert(i, BalanceRecord { account: moved.account, amount: stored - amount });
                    proof {
                        let v = (account@, (stored - amount) as u128);
                        assert(self@ =~= pre.update(i as int, v));
                        lemma_sum_update(pre, i as int, v);
                        assert forall|a: Seq<u8>|
                            a != account@ implies stored_balance(self@, a) == stored_balance(
                            pre,
                            a,
                        ) by {
                            lemma_stored_balance_update(pre, i as int, v, a);
                        }
                        lemma_stored_balance_update(pre, i as int, v, account@);
                        assert forall|p: int, q: int|
                            0 <= p < q < self@.len() implies self@[p].0 != self@[q].0 by {
                            assert(self@[p].0 == pre[p].0);
                            assert(self@[q].0 == pre[q].0);
                        }
                    }
                }
                self.total = self.total - amount;
                Ok(())
            },
            None => {
                proof {
                    lemma_stored_balance_absent(pre, account@);
                }
                if amount == 0 {
                    Ok(())
                } else {
                    Err(TransferError::InsufficientBalance)
                }
            },
        }
    }

    /// Moves `amount` from `sender` to `receiver` as a single all-or-nothing
    /// unit: the debit and the credit either both happen or neither does, and
    /// the total supply is unchanged. The debit lowers the running total
    /// before the credit raises it back, so the credit can never overflow.
    pub fn apply_transfer(
        &mut self,
        sender: &AccountId,
        receiver: &AccountId,
        amount: u128,
    ) -> (r: Result<(), TransferError>)
        requires
            old(self).wf(),
        ensures
            final(self).wf(),
            (r == Err::<(), TransferError>(TransferError::InvalidReceiver)) <==> sender@
                == receiver@,
            (r == Err::<(), TransferError>(TransferError::InvalidAmount)) <==> (sender@
                != receiver@ && amount == 0),
            (r == Err::<(), TransferError>(TransferError::InsufficientBalance)) <==> (sender@
                != receiver@ && amount > 0 && amount > old(self).balance(sender@)),
            r is Ok <==> (sender@ != receiver@ && 0 < amount <= old(self).balance(sender@)),
            r is Err ==> *final(self) == *old(self),
            r is Ok ==> {
                &&& final(self).balance(sender@) == old(self).balance(sender@) - amount
                &&& final(self).balance(receiver@) == old(self).balance(receiver@) + amount
                &&& (forall|a: Seq<u8>|
                    a != sender@ && a != receiver@ ==> final(self).balance(a) == old(self).balance(
                        a,
                    ))
                &&& final(self).supply() == old(self).supply()
            },
    {
        if sender.is_same(receiver) {
            return Err(TransferError::InvalidReceiver);
        }
        if amount == 0 {
            return Err(TransferError::InvalidAmount);
        }
        match self.decrease_balance(sender, amount) {
            Err(e) => Err(e),
            Ok(()) => {
                match self.increase_balance(receiver, amount) {
                    Ok(()) => Ok(()),
                    Err(e) => {
                        // unreachable: the debit lowered the running total, so
                        // the credit cannot overflow; restore the debit all
                        // the same, keeping the unit all-or-nothing
                        let _ = self.increase_balance(sender, amount);
                        Err(e)
                    },
                }
            },
        }
    }
}

/// The sum of the stored balances of the given accounts.
pub open spec fn sum_over_accounts(s: Seq<(Seq<u8>, u128)>, accounts: Seq<Seq<u8>>) -> int
    decreases accounts.len(),
{
    if accounts.len() == 0 {
        0
    } else {
        sum_over_accounts(s, accounts.drop_last()) + stored_balance(s, accounts.last())
    }
}

/// A sequence without repeated elements.
pub open spec fn no_repeats(accounts: Seq<Seq<u8>>) -> bool {
    forall|i: int, j: int| 0 <= i < j < accounts.len() ==> accounts[i] != accounts[j]
}

/// The given accounts include every account with a stored record.
pub open spec fn covers_stored_accounts(s: Seq<(Seq<u8>, u128)>, accounts: Seq<Seq<u8>>) -> bool {
    forall|i: int| 0 <= i < s.len() ==> accounts.contains(#[trigger] s[i].0)
}

/// Two record sequences whose stored balances agree everywhere but at `x`
/// have sums over any duplicate-free accounts that differ by at most the
/// difference at `x`.
proof fn lemma_sum_over_pointwise(
    s1: Seq<(Seq<u8>, u128)>,
    s2: Seq<(Seq<u8>, u128)>,
    accounts: Seq<Seq<u8>>,
    x: Seq<u8>,
)
    requires
        forall|a: Seq<u8>| a != x ==> #[trigger] stored_balance(s1, a) == stored_balance(s2, a),
    ensures
        accounts.contains(x) && no_repeats(accounts) ==> sum_over_accounts(s1, accounts)
            - sum_over_accounts(s2, accounts) == stored_balance(s1, x) - stored_balance(s2, x),
        !accounts.contains(x) ==> sum_over_accounts(s1, accounts) == sum_over_accounts(
            s2,
            accounts,
        ),
    decreases accounts.len(),
{
    if accounts.len() > 0 {
        let rest = accounts.drop_last();
        assert forall|i: int, j: int|
            0 <= i < j < rest.len() && no_repeats(accounts) implies rest[i] != rest[j] by {
            assert(rest[i] == accounts[i]);
            assert(rest[j] == accounts[j]);
        }
        lemma_sum_over_pointwise(s1, s2, rest, x);
        if accounts.contains(x) {
            let k = choose|k: int| 0 <= k < accounts.len() && accounts[k] == x;
            if k == accounts.len() - 1 {
                if no_repeats(accounts) {
                    assert forall|i: int| 0 <= i < rest.len() implies rest[i] != x by {
                        assert(rest[i] == accounts[i]);
                    }
                    assert(!rest.contains(x));
                }
            } else {
                assert(rest[k] == accounts[k]);
                assert(rest.contains(x));
                if no_repeats(accounts) {
                    assert(accounts.last() != x);
                }
            }
        } else {
            assert forall|i: int| 0 <= i < rest.len() implies rest[i] != x by {
                assert(rest[i] == accounts[i]);
            }
            assert(!rest.contains(x));
            assert(accounts.last() != x);
        }
    }
}

proof fn lemma_sum_over_no_records(s: Seq<(Seq<u8>, u128)>, accounts: Seq<Seq<u8>>)
    requires
        s.len() == 0,
    ensures
        sum_over_accounts(s, accounts) == 0,
    decreases accounts.len(),
{
    if accounts.len() > 0 {
        lemma_sum_over_no_records(s, accounts.drop_last());
    }
}

/// The sum of the stored balances over any duplicate-free collection of
/// accounts that includes every stored one is the sum of all stored balances.
proof fn lemma_sum_over_covering(s: Seq<(Seq<u8>, u128)>, accounts: Seq<Seq<u8>>)
    requires
        distinct_accounts(s),
        no_repeats(accounts),
        covers_stored_accounts(s, accounts),
    ensures
        sum_over_accounts(s, accounts) == sum_of_balances(s),
    decreases s.len(),
{
    if s.len() == 0 {
        lemma_sum_over_no_records(s, accounts);
    } else {
        let rest = s.drop_last();
        let k = s.last().0;
        let v = s.last().1;
        lemma_distinct_drop_last(s);
        assert forall|i: int| 0 <= i < rest.len() implies accounts.contains(
            #[trigger] rest[i].0,
        ) by {
            assert(rest[i] == s[i]);
        }
        lemma_sum_over_covering(rest, accounts);
        // the two record sequences agree everywhere but at the last account
        assert forall|a: Seq<u8>| a != k implies #[trigger] stored_balance(s, a)
            == stored_balance(rest, a) by {}
        assert forall|i: int| 0 <= i < rest.len() implies rest[i].0 != k by {
            assert(rest[i] == s[i]);
        }
        lemma_stored_balance_absent(rest, k);
        assert(stored_balance(s, k) == v);
        assert(accounts.contains(s[s.len() - 1].0));
        lemma_sum_over_pointwise(s, rest, accounts, k);
    }
}

/// Law: in every well-formed ledger the running total equals the sum of
/// `balance` over any duplicate-free collection of accounts that includes
/// every account holding a nonzero balance — every account ever touched,
/// say, since an account never touched holds zero.
pub proof fn lemma_supply_is_sum_of_balances(l: &Ledger, accounts: Seq<Seq<u8>>)
    requires
        l.wf(),
        no_repeats(accounts),
        forall|a: Seq<u8>| #[trigger] l.balance(a) > 0 ==> accounts.contains(a),
    ensures
        l.supply() as int == sum_over_accounts(l@, accounts),
{
    assert forall|i: int| 0 <= i < l@.len() implies accounts.contains(#[trigger] l@[i].0) by {
        lemma_stored_balance_index(l@, i);
        assert(l.balance(l@[i].0) > 0);
    }
    lemma_sum_over_covering(l@, accounts);
}

} // verus!
