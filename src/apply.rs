use vstd::prelude::*;

use crate::balances::{
    balance_of, lemma_balance_with_balance, lemma_total_with_balance, total, with_balance,
    BalanceEntries, Balances,
};
use crate::error::LedgerError;
use crate::tx::Tx;

verus! {

/// The table after applying `tx`, or `None` when `tx` is refused.
///
/// A reward credits its receiver; a transfer moves `value` from sender to
/// receiver and is refused when the sender holds less. Either is refused when
/// a credit would pass `u64::MAX`. A transfer to oneself changes nothing.
pub open spec fn apply_tx_spec(s: BalanceEntries, tx: Tx) -> Option<BalanceEntries> {
    let v = tx.value_spec();
    let to_bal = balance_of(s, tx.to_spec());
    if tx.is_reward_spec() {
        if to_bal + v > u64::MAX {
            None
        } else {
            Some(with_balance(s, tx.to_spec(), (to_bal + v) as u64))
        }
    } else {
        let from_bal = balance_of(s, tx.from_spec());
        if v > from_bal {
            None
        } else if tx.from_spec() == tx.to_spec() {
            Some(s)
        } else if to_bal + v > u64::MAX {
            None
        } else {
            Some(
                with_balance(
                    with_balance(s, tx.from_spec(), (from_bal - v) as u64),
                    tx.to_spec(),
                    (to_bal + v) as u64,
                ),
            )
        }
    }
}

/// The table after applying `txs` in order, or `None` when one is refused.
pub open spec fn apply_txs_spec(s: BalanceEntries, txs: Seq<Tx>) -> Option<BalanceEntries>
    decreases txs.len(),
{
    if txs.len() == 0 {
        Some(s)
    } else {
        match apply_txs_spec(s, txs.drop_last()) {
            Some(s1) => apply_tx_spec(s1, txs.last()),
            None => None,
        }
    }
}

/// The amount that `tx` adds to the total: its value for a reward, else 0.
pub open spec fn issued(tx: Tx) -> nat {
    if tx.is_reward_spec() {
        tx.value_spec() as nat
    } else {
        0
    }
}

/// The amount that `txs` add to the total.
pub open spec fn issued_total(txs: Seq<Tx>) -> nat
    decreases txs.len(),
{
    if txs.len() == 0 {
        0
    } else {
        issued_total(txs.drop_last()) + issued(txs.last())
    }
}

/// A transaction that is applied leaves the sum of all balances unchanged,
/// except that a reward raises it by exactly the rewarded value.
pub proof fn lemma_apply_tx_total(s: BalanceEntries, tx: Tx)
    requires
        apply_tx_spec(s, tx) is Some,
    ensures
        total(apply_tx_spec(s, tx).unwrap()) == total(s) + issued(tx),
{
    let v = tx.value_spec();
    let to_bal = balance_of(s, tx.to_spec());
    if tx.is_reward_spec() {
        lemma_total_with_balance(s, tx.to_spec(), (to_bal + v) as u64);
    } else if tx.from_spec() != tx.to_spec() {
        let from_bal = balance_of(s, tx.from_spec());
        let s1 = with_balance(s, tx.from_spec(), (from_bal - v) as u64);
        lemma_total_with_balance(s, tx.from_spec(), (from_bal - v) as u64);
        lemma_balance_with_balance(s, tx.from_spec(), (from_bal - v) as u64, tx.to_spec());
        lemma_total_with_balance(s1, tx.to_spec(), (to_bal + v) as u64);
    }
}

/// Conservation: applying a sequence of transactions changes the sum of all
/// balances by exactly the total rewarded in it; transfers move value only.
pub proof fn lemma_apply_txs_total(s: BalanceEntries, txs: Seq<Tx>)
    requires
        apply_txs_spec(s, txs) is Some,
    ensures
        total(apply_txs_spec(s, txs).unwrap()) == total(s) + issued_total(txs),
    decreases txs.len(),
{
    if txs.len() > 0 {
        lemma_apply_txs_total(s, txs.drop_last());
        lemma_apply_tx_total(apply_txs_spec(s, txs.drop_last()).unwrap(), txs.last());
    }
}

/// A reward credits its receiver by exactly its value, whatever the sender
/// holds, and leaves every other account as it was.
pub proof fn lemma_reward_credits(s: BalanceEntries, tx: Tx, k: Seq<char>)
    requires
        tx.is_reward_spec(),
        balance_of(s, tx.to_spec()) + tx.value_spec() <= u64::MAX,
    ensures
        apply_tx_spec(s, tx) is Some,
        balance_of(apply_tx_spec(s, tx).unwrap(), k) == if k == tx.to_spec() {
            balance_of(s, k) + tx.value_spec()
        } else {
            balance_of(s, k) as int
        },
{
    let to_bal = balance_of(s, tx.to_spec());
    lemma_balance_with_balance(s, tx.to_spec(), (to_bal + tx.value_spec()) as u64, k);
}

/// The error that refuses `tx` on `s` is the one its cause calls for: a
/// transfer over the sender's balance gives `InsufficientFunds` with that
/// balance; any other refusal is a credit past `u64::MAX`, `BalanceOverflow`.
pub open spec fn refusal_names_cause(s: BalanceEntries, tx: Tx, r: Result<(), LedgerError>) -> bool {
    &&& !tx.is_reward_spec() && tx.value_spec() > balance_of(s, tx.from_spec()) ==> (r matches Err(
        LedgerError::InsufficientFunds { account, balance, required },
    ) && account@ == tx.from_spec() && balance == balance_of(s, tx.from_spec()) && required
        == tx.value_spec())
    &&& r is Err && (tx.is_reward_spec() || tx.value_spec() <= balance_of(s, tx.from_spec())) ==> (
    r matches Err(LedgerError::BalanceOverflow { account, balance, credit }) && account@
        == tx.to_spec() && balance == balance_of(s, tx.to_spec()) && credit == tx.value_spec())
}

/// `txs[k]` is the first transaction of `txs` refused on `s`, and `r`
/// reports it.
pub open spec fn refused_at(s: BalanceEntries, txs: Seq<Tx>, k: int, r: Result<(), LedgerError>) -> bool {
    &&& 0 <= k < txs.len()
    &&& match apply_txs_spec(s, txs.take(k)) {
        Some(p) => apply_tx_spec(p, txs[k]) is None && refusal_names_cause(p, txs[k], r),
        None => false,
    }
}

impl Balances {
    /// Applies one transaction. On an error the table is unchanged.
    pub fn apply_tx(&mut self, tx: &Tx) -> (r: Result<(), LedgerError>)
        ensures
            r is Ok <==> apply_tx_spec(old(self)@, *tx) is Some,
            r is Ok ==> final(self)@ == apply_tx_spec(old(self)@, *tx).unwrap(),
            r is Err ==> final(self)@ == old(self)@,
            old(self).wf() ==> final(self).wf(),
            refusal_names_cause(old(self)@, *tx, r),
    {
        let value = tx.value();
        let to_bal = self.get(tx.to());
        if tx.is_reward() {
            if to_bal > u64::MAX - value {
                return Err(
                    LedgerError::BalanceOverflow {
                        account: tx.to().clone(),
                        balance: to_bal,
                        credit: value,
                    },
                );
            }
            self.set(tx.to().clone(), to_bal + value);
            return Ok(());
        }
        let from_bal = self.get(tx.from());
        if value > from_bal {
            return Err(
                LedgerError::InsufficientFunds {
                    account: tx.from().clone(),
                    balance: from_bal,
                    required: value,
                },
            );
        }
        if tx.from().eq(tx.to()) {
            return Ok(());
        }
        if to_bal > u64::MAX - value {
            return Err(
                LedgerError::BalanceOverflow { account: tx.to().clone(), balance: to_bal, credit: value },
            );
        }
        self.set(tx.from().clone(), from_bal - value);
        self.set(tx.to().clone(), to_bal + value);
        Ok(())
    }

    /// Applies `txs` in order, all or nothing: on the first refused
    /// transaction the table is left as it was before the call.
    pub fn apply_txs(&mut self, txs: &Vec<Tx>) -> (r: Result<(), LedgerError>)
        ensures
            r is Ok <==> apply_txs_spec(old(self)@, txs@) is Some,
            r is Ok ==> final(self)@ == apply_txs_spec(old(self)@, txs@).unwrap(),
            r is Err ==> final(self)@ == old(self)@,
            old(self).wf() ==> final(self).wf(),
            r is Err ==> exists|k: int| #[trigger] refused_at(old(self)@, txs@, k, r),
    {
        let mut scratch = self.duplicate();
        let ghost wf0 = self.wf();
        let mut i: usize = 0;
        while i < txs.len()
            invariant
                0 <= i <= txs@.len(),
                apply_txs_spec(self@, txs@.take(i as int)) == Some(scratch@),
                wf0 ==> scratch.wf(),
                wf0 == self.wf(),
            decreases txs.len() - i,
        {
            proof {
                assert(txs@.take(i + 1).drop_last() =~= txs@.take(i as int));
            }
            match scratch.apply_tx(&txs[i]) {
                Ok(()) => {},
                Err(e) => {
                    proof {
                        lemma_apply_txs_none_extends(self@, txs@, i + 1);
                        assert(refused_at(self@, txs@, i as int, Err::<(), LedgerError>(e)));
                    }
                    return Err(e);
                },
            }
            i += 1;
        }
        assert(txs@.take(i as int) =~= txs@);
        *self = scratch;
        Ok(())
    }
}

/// Once a prefix of `txs` is refused, so is every longer prefix.
proof fn lemma_apply_txs_none_extends(s: BalanceEntries, txs: Seq<Tx>, n: int)
    requires
        0 <= n <= txs.len(),
        apply_txs_spec(s, txs.take(n)) is None,
    ensures
        apply_txs_spec(s, txs) is None,
    decreases txs.len() - n,
{
    if n < txs.len() {
        assert(txs.take(n + 1).drop_last() =~= txs.take(n));
        lemma_apply_txs_none_extends(s, txs, n + 1);
    } else {
        assert(txs.take(n) =~= txs);
    }
}

} // verus!
