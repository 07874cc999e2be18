use vstd::prelude::*;

use crate::tx::Account;

verus! {

/// The abstract content of a balance table: (account, balance) entries.
pub type BalanceEntries = Seq<(Seq<char>, u64)>;

/// Index of the first entry for account `a`, or -1 when there is none.
pub open spec fn find_entry(s: BalanceEntries, a: Seq<char>) -> int
    decreases s.len(),
{
    if s.len() == 0 {
        -1
    } else if s[0].0 == a {
        0
    } else {
        let r = find_entry(s.drop_first(), a);
        if r < 0 {
            -1
        } else {
            r + 1
        }
    }
}

/// The balance of `a`; an account without an entry holds 0.
pub open spec fn balance_of(s: BalanceEntries, a: Seq<char>) -> u64 {
    let i = find_entry(s, a);
    if i >= 0 {
        s[i].1
    } else {
        0
    }
}

/// The table after setting the balance of `a` to `v`: its entry is updated in
/// place, or a new entry is appended.
pub open spec fn with_balance(s: BalanceEntries, a: Seq<char>, v: u64) -> BalanceEntries {
    let i = find_entry(s, a);
    if i >= 0 {
        s.update(i, (a, v))
    } else {
        s.push((a, v))
    }
}

/// Sum of all balances in the table.
pub open spec fn total(s: BalanceEntries) -> nat
    decreases s.len(),
{
    if s.len() == 0 {
        0
    } else {
        total(s.drop_last()) + s.last().1 as nat
    }
}

/// No account has two entries.
pub open spec fn keys_unique(s: BalanceEntries) -> bool {
    forall|i: int, j: int| 0 <= i < s.len() && 0 <= j < s.len() && i != j ==> s[i].0 != s[j].0
}

pub proof fn lemma_find_entry(s: BalanceEntries, a: Seq<char>)
    ensures
        -1 <= find_entry(s, a) < s.len(),
        find_entry(s, a) >= 0 ==> s[find_entry(s, a)].0 == a,
        forall|j: int| 0 <= j < s.len() && (j < find_entry(s, a) || find_entry(s, a) < 0) ==> s[j].0 != a,
    decreases s.len(),
{
    if s.len() > 0 && s[0].0 != a {
        lemma_find_entry(s.drop_first(), a);
        assert forall|j: int| 0 < j < s.len() implies s[j] == s.drop_first()[j - 1] by {}
    }
}

/// The first entry for `a` is the one at `i`.
pub proof fn lemma_find_entry_at(s: BalanceEntries, a: Seq<char>, i: int)
    requires
        0 <= i < s.len(),
        s[i].0 == a,
        forall|j: int| 0 <= j < i ==> s[j].0 != a,
    ensures
        find_entry(s, a) == i,
{
    lemma_find_entry(s, a);
}

pub proof fn lemma_total_update(s: BalanceEntries, i: int, e: (Seq<char>, u64))
    requires
        0 <= i < s.len(),
    ensures
        total(s.update(i, e)) + s[i].1 == total(s) + e.1,
    decreases s.len(),
{
    let t = s.update(i, e);
    if i < s.len() - 1 {
        assert(t.drop_last() =~= s.drop_last().update(i, e));
        lemma_total_update(s.drop_last(), i, e);
    } else {
        assert(t.drop_last() =~= s.drop_last());
    }
}

/// Setting the balance of `a` to `v` changes the total by `v` less the old balance.
pub proof fn lemma_total_with_balance(s: BalanceEntries, a: Seq<char>, v: u64)
    ensures
        total(with_balance(s, a, v)) + balance_of(s, a) == total(s) + v,
{
    lemma_find_entry(s, a);
    let i = find_entry(s, a);
    if i >= 0 {
        lemma_total_update(s, i, (a, v));
    } else {
        assert(s.push((a, v)).drop_last() =~= s);
    }
}

/// Setting the balance of `a` changes no other account's balance.
pub proof fn lemma_balance_with_balance(s: BalanceEntries, a: Seq<char>, v: u64, k: Seq<char>)
    ensures
        balance_of(with_balance(s, a, v), k) == if k == a { v } else { balance_of(s, k) },
        keys_unique(s) ==> keys_unique(with_balance(s, a, v)),
{
    lemma_find_entry(s, a);
    lemma_find_entry(s, k);
    let t = with_balance(s, a, v);
    lemma_find_entry(t, k);
    let i = find_entry(s, a);
    let ik = find_entry(s, k);
    if k == a {
        if i >= 0 {
            lemma_find_entry_at(t, k, i);
        } else {
            lemma_find_entry_at(t, k, s.len() as int);
        }
    } else {
        if ik >= 0 {
            lemma_find_entry_at(t, k, ik);
        } else {
            assert forall|j: int| 0 <= j < t.len() implies t[j].0 != k by {}
        }
    }
}

/// A table of account balances; each account has at most one entry, and
/// entries keep the order in which their accounts first appeared.
#[derive(Debug, Clone)]
pub struct Balances {
    entries: Vec<(Account, u64)>,
}

impl View for Balances {
    type V = BalanceEntries;

    closed spec fn view(&self) -> BalanceEntries {
        self.entries@.map_values(|e: (Account, u64)| (e.0@, e.1))
    }
}

impl Balances {
    /// Well-formedness: no account has two entries.
    pub open spec fn wf(&self) -> bool {
        keys_unique(self@)
    }

    /// An empty table.
    pub fn new() -> (r: Balances)
        ensures
            r@ == Seq::<(Seq<char>, u64)>::empty(),
            r.wf(),
    {
        Balances { entries: Vec::new() }
    }

    /// Number of entries.
    pub fn len(&self) -> (r: usize)
        ensures
            r == self@.len(),
    {
        self.entries.len()
    }

    /// The entry at position `i`.
    pub fn entry(&self, i: usize) -> (r: (&Account, u64))
        requires
            i < self@.len(),
        ensures
            r.0@ == self@[i as int].0,
            r.1 == self@[i as int].1,
    {
        let e = &self.entries[i];
        (&e.0, e.1)
    }

    /// Position of the entry for `a`, if there is one.
    pub fn position(&self, a: &Account) -> (r: Option<usize>)
        ensures
            r matches Some(i) ==> i == find_entry(self@, a@) && i < self@.len(),
            r is None ==> find_entry(self@, a@) == -1,
    {
        proof {
            lemma_find_entry(self@, a@);
        }
        let mut i: usize = 0;
        while i < self.entries.len()
            invariant
                0 <= i <= self@.len(),
                self@.len() == self.entries@.len(),
                forall|j: int| 0 <= j < i ==> self@[j].0 != a@,
            decreases self.entries.len() - i,
        {
            if self.entries[i].0 == *a {
                proof {
                    lemma_find_entry_at(self@, a@, i as int);
                }
                return Some(i);
            }
            i += 1;
        }
        None
    }

    /// The balance of `a`, 0 for an account without an entry.
    pub fn get(&self, a: &Account) -> (r: u64)
        ensures
            r == balance_of(self@, a@),
    {
        proof {
            lemma_find_entry(self@, a@);
        }
        match self.position(a) {
            Some(i) => self.entries[i].1,
            None => 0,
        }
    }

    /// Sets the balance of `a` to `v`.
    pub fn set(&mut self, a: Account, v: u64)
        ensures
            final(self)@ == with_balance(old(self)@, a@, v),
            old(self).wf() ==> final(self).wf(),
    {
        proof {
            lemma_balance_with_balance(self@, a@, v, a@);
        }
        match self.position(&a) {
            Some(i) => {
                self.entries.set(i, (a, v));
                assert(self@ =~= with_balance(old(self)@, a@, v));
            },
            None => {
                self.entries.push((a, v));
                assert(self@ =~= with_balance(old(self)@, a@, v));
            },
        }
    }

    /// An entry-by-entry copy of the table.
    pub fn duplicate(&self) -> (r: Balances)
        ensures
            r@ == self@,
    {
        let mut entries: Vec<(Account, u64)> = Vec::new();
        let mut i: usize = 0;
        while i < self.entries.len()
            invariant
                0 <= i <= self.entries@.len(),
                entries@.len() == i,
                forall|j: int| 0 <= j < i ==> entries@[j].0@ == self.entries@[j].0@ && entries@[j].1 == self.entries@[j].1,
            decreases self.entries.len() - i,
        {
            let e = &self.entries[i];
            entries.push((e.0.clone(), e.1));
            i += 1;
        }
        let r = Balances { entries };
        assert(r@ =~= self@);
        r
    }
}

} // verus!
