use vstd::prelude::*;

use crate::tx::Account;

verus! {

/// Why the ledger refused an operation.
#[derive(Debug, Clone, PartialEq, Eq)]
pub enum LedgerError {
    /// The genesis document is missing or malformed.
    ConfigError { message: String },
    /// A record of the ledger log is unreadable or inconsistent.
    CorruptLog { record: u64 },
    /// A block does not carry the next sequence number.
    SequenceMismatch { expected: u64, got: u64 },
    /// A block does not name the latest block as its parent.
    ParentMismatch { expected: crate::block::Hash, got: crate::block::Hash },
    /// A transfer asks for more than the sender holds.
    InsufficientFunds { account: Account, balance: u64, required: u64 },
    /// A credit would take a balance past the largest representable amount.
    BalanceOverflow { account: Account, balance: u64, credit: u64 },
    /// A block's canonical text is too long to digest.
    BlockTooLarge { bytes: usize },
    /// The latest block carries the largest sequence number; none can follow it.
    ChainExhausted,
    /// Appending to or syncing the ledger log failed.
    IoError { message: String },
}

} // verus!
