use vstd::prelude::*;

verus! {

/// An account is identified by an arbitrary string.
pub type Account = String;

/// Builds an account identifier from its text.
pub fn new_account(value: &str) -> (r: Account)
    ensures
        r@ == value@,
{
    value.to_string()
}

/// A transfer of `value` from one account to another, or, when `data` reads
/// `reward`, the issue of `value` to the receiving account.
#[derive(Debug, Clone)]
pub struct Tx {
    from: Account,
    to: Account,
    value: u64,
    data: String,
}

/// The text that marks a reward transaction.
pub open spec fn reward_marker() -> Seq<char> {
    seq!['r', 'e', 'w', 'a', 'r', 'd']
}

impl Tx {
    pub closed spec fn from_spec(&self) -> Seq<char> {
        self.from@
    }

    pub closed spec fn to_spec(&self) -> Seq<char> {
        self.to@
    }

    pub closed spec fn value_spec(&self) -> u64 {
        self.value
    }

    pub closed spec fn data_spec(&self) -> Seq<char> {
        self.data@
    }

    pub open spec fn is_reward_spec(&self) -> bool {
        self.data_spec() == reward_marker()
    }

    /// Builds a transaction; `data` equal to `reward` makes it a reward.
    pub fn new(from: Account, to: Account, value: &u64, data: &str) -> (r: Tx)
        ensures
            r.from_spec() == from@,
            r.to_spec() == to@,
            r.value_spec() == *value,
            r.data_spec() == data@,
    {
        Tx { from, to, value: *value, data: data.to_string() }
    }

    pub fn is_reward(&self) -> (r: bool)
        ensures
            r == self.is_reward_spec(),
    {
        let marker = "reward".to_owned();
        proof {
            reveal_strlit("reward");
            assert(marker@ =~= reward_marker());
        }
        self.data == marker
    }

    pub fn from(&self) -> (r: &Account)
        ensures
            r@ == self.from_spec(),
    {
        &self.from
    }

    pub fn to(&self) -> (r: &Account)
        ensures
            r@ == self.to_spec(),
    {
        &self.to
    }

    pub fn value(&self) -> (r: u64)
        ensures
            r == self.value_spec(),
    {
        self.value
    }

    pub fn data(&self) -> (r: &String)
        ensures
            r@ == self.data_spec(),
    {
        &self.data
    }

    /// A field-by-field copy of the transaction.
    pub fn duplicate(&self) -> (r: Tx)
        ensures
            r == *self,
    {
        Tx {
            from: self.from.clone(),
            to: self.to.clone(),
            value: self.value,
            data: self.data.clone(),
        }
    }
}

} // verus!
