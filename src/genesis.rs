use vstd::prelude::*;

use crate::balances::{balance_of, with_balance, BalanceEntries, Balances};
use crate::tx::Account;

verus! {

/// The genesis document: chain identifier, genesis time and the balances
/// that seed the ledger.
#[derive(Debug, Clone)]
pub struct GenesisJson {
    pub genesis_time: String,
    pub chain_id: String,
    pub balances: Balances,
}

/// The balances that seed the ledger before any block.
#[derive(Debug, Clone)]
pub struct Genesis {
    balances: Balances,
}

impl View for Genesis {
    type V = BalanceEntries;

    closed spec fn view(&self) -> BalanceEntries {
        self.balances@
    }
}

impl Genesis {
    pub closed spec fn wf(&self) -> bool {
        self.balances.wf()
    }

    /// A genesis without balances.
    pub fn new() -> (r: Genesis)
        ensures
            r@ == Seq::<(Seq<char>, u64)>::empty(),
            r.wf(),
    {
        Genesis { balances: Balances::new() }
    }

    /// Keeps the balances table of a genesis document.
    pub fn from_json(doc: GenesisJson) -> (r: Genesis)
        ensures
            r@ == doc.balances@,
            doc.balances.wf() ==> r.wf(),
    {
        Genesis { balances: doc.balances }
    }

    pub fn get_balance(&self, account: &Account) -> (r: u64)
        ensures
            r == balance_of(self@, account@),
    {
        self.balances.get(account)
    }

    pub fn set_balance(&mut self, account: Account, balance: u64)
        ensures
            final(self)@ == with_balance(old(self)@, account@, balance),
            old(self).wf() ==> final(self).wf(),
    {
        self.balances.set(account, balance);
    }

    pub fn get_balances(&self) -> (r: &Balances)
        ensures
            r@ == self@,
            self.wf() ==> r.wf(),
    {
        &self.balances
    }
}

} // verus!
