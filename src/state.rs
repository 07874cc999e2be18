use vstd::prelude::*;

use crate::apply::{apply_tx_spec, apply_txs_spec, refusal_names_cause, refused_at};
use crate::balances::{keys_unique, BalanceEntries, Balances};
use crate::block::{
    block_hash, block_text_len, fields_text_len, hash_eq, Block, BlockFS, DIGEST_LIMIT,
};
use crate::codec::{lemma_hash_by_content, same_content, same_tx};
use crate::error::LedgerError;
use crate::genesis::Genesis;
use crate::tx::Tx;

verus! {

/// The hash that stands for "no block yet": 32 zero bytes.
pub open spec fn zero_hash() -> Seq<u8> {
    Seq::new(32, |i: int| 0u8)
}

/// What replaying a log yields: balances, the latest block and its hash.
pub type Replayed = (BalanceEntries, Option<Block>, Seq<u8>);

/// Whether a record may be replayed: its key is the hash of its block.
pub open spec fn record_sound(r: BlockFS) -> bool {
    block_text_len(r.value) < DIGEST_LIMIT && r.key@ == block_hash(r.value)
}

/// Replays `log` in order over the genesis balances `g`: each record must be
/// sound and its transactions must apply; `None` marks a corrupt log.
pub open spec fn replay(g: BalanceEntries, log: Seq<BlockFS>) -> Option<Replayed>
    decreases log.len(),
{
    if log.len() == 0 {
        Some((g, None, zero_hash()))
    } else {
        match replay(g, log.drop_last()) {
            Some(prev) => {
                let r = log.last();
                if record_sound(r) {
                    match apply_txs_spec(prev.0, r.value.txs_spec()) {
                        Some(b) => Some((b, Some(r.value), r.key@)),
                        None => None,
                    }
                } else {
                    None
                }
            },
            None => None,
        }
    }
}

/// Two optional blocks with the same header and transactions.
pub open spec fn same_block(a: Option<Block>, b: Option<Block>) -> bool {
    match (a, b) {
        (Some(x), Some(y)) => x.header_spec() == y.header_spec() && x.txs_spec() == y.txs_spec(),
        (None, None) => true,
        _ => false,
    }
}

/// The ledger's state: balances, the pending pool and the latest block.
///
/// Balances include the effect of the pending transactions, each of which
/// was checked when it was added; `committed` is what the balances were once
/// the latest block was applied.
#[derive(Clone)]
pub struct State {
    balances: Balances,
    committed: Ghost<BalanceEntries>,
    tx_mempool: Vec<Tx>,
    latest_block: Option<Block>,
    latest_block_hash: crate::block::Hash,
    has_genesis_block: bool,
}

impl State {
    pub closed spec fn balances_spec(&self) -> BalanceEntries {
        self.balances@
    }

    pub closed spec fn committed_spec(&self) -> BalanceEntries {
        self.committed@
    }

    pub closed spec fn pending_spec(&self) -> Seq<Tx> {
        self.tx_mempool@
    }

    pub closed spec fn latest_block_spec(&self) -> Option<Block> {
        self.latest_block
    }

    pub closed spec fn latest_hash_spec(&self) -> Seq<u8> {
        self.latest_block_hash@
    }

    pub closed spec fn has_genesis_spec(&self) -> bool {
        self.has_genesis_block
    }

    /// Well-formedness: one entry per account, and a latest block exactly
    /// when a block has been committed.
    pub open spec fn wf(&self) -> bool {
        &&& keys_unique(self.balances_spec())
        &&& self.has_genesis_spec() == self.latest_block_spec() is Some
        &&& !self.has_genesis_spec() ==> self.latest_hash_spec() == zero_hash()
    }

    /// The balances are those of the latest block with the pending
    /// transactions applied in order.
    pub open spec fn settled(&self) -> bool {
        apply_txs_spec(self.committed_spec(), self.pending_spec()) == Some(self.balances_spec())
    }

    /// Sequence number that the next block must carry.
    pub open spec fn next_number(&self) -> int {
        match self.latest_block_spec() {
            Some(b) => b.header_spec().number_spec() + 1,
            None => 0,
        }
    }

    /// Why `block` cannot follow the latest block, if it cannot.
    pub open spec fn chain_fault(&self, block: Block) -> Option<LedgerError> {
        let got = block.header_spec().number_spec();
        if self.next_number() > u64::MAX {
            Some(LedgerError::ChainExhausted)
        } else if got != self.next_number() {
            Some(LedgerError::SequenceMismatch { expected: self.next_number() as u64, got })
        } else {
            None
        }
    }

    /// A state holding the genesis balances and no block.
    pub fn new(genesis: &Genesis) -> (r: State)
        ensures
            r.balances_spec() == genesis@,
            r.pending_spec() == Seq::<Tx>::empty(),
            r.latest_block_spec() is None,
            r.latest_hash_spec() == zero_hash(),
            !r.has_genesis_spec(),
            genesis.wf() ==> r.wf(),
            r.settled(),
            r.committed_spec() == genesis@,
    {
        let r = State {
            balances: genesis.get_balances().duplicate(),
            committed: Ghost(genesis@),
            tx_mempool: Vec::new(),
            latest_block: None,
            latest_block_hash: [0u8; 32],
            has_genesis_block: false,
        };
        assert(r.latest_block_hash@ =~= zero_hash());
        r
    }

    /// Applies one transaction to the balances; see `Balances::apply_tx`.
    pub fn apply_tx(&mut self, tx: &Tx) -> (r: Result<(), LedgerError>)
        ensures
            r is Ok <==> apply_tx_spec(old(self).balances_spec(), *tx) is Some,
            r is Ok ==> final(self).balances_spec() == apply_tx_spec(
                old(self).balances_spec(),
                *tx,
            ).unwrap(),
            r is Err ==> final(self).balances_spec() == old(self).balances_spec(),
            refusal_names_cause(old(self).balances_spec(), *tx, r),
            final(self).committed_spec() == old(self).committed_spec(),
            final(self).pending_spec() == old(self).pending_spec(),
            final(self).latest_block_spec() == old(self).latest_block_spec(),
            final(self).latest_hash_spec() == old(self).latest_hash_spec(),
            final(self).has_genesis_spec() == old(self).has_genesis_spec(),
            old(self).wf() ==> final(self).wf(),
    {
        self.balances.apply_tx(tx)
    }

    /// Admits a transaction to the pending pool once it applies to the
    /// balances; a refused one changes nothing.
    pub fn add_tx(&mut self, tx: &Tx) -> (r: Result<(), LedgerError>)
        ensures
            r is Ok <==> apply_tx_spec(old(self).balances_spec(), *tx) is Some,
            r is Ok ==> final(self).balances_spec() == apply_tx_spec(
                old(self).balances_spec(),
                *tx,
            ).unwrap() && final(self).pending_spec() == old(self).pending_spec().push(*tx),
            r is Err ==> final(self).balances_spec() == old(self).balances_spec()
                && final(self).pending_spec() == old(self).pending_spec(),
            refusal_names_cause(old(self).balances_spec(), *tx, r),
            final(self).committed_spec() == old(self).committed_spec(),
            old(self).settled() ==> final(self).settled(),
            final(self).latest_block_spec() == old(self).latest_block_spec(),
            final(self).latest_hash_spec() == old(self).latest_hash_spec(),
            final(self).has_genesis_spec() == old(self).has_genesis_spec(),
            old(self).wf() ==> final(self).wf(),
    {
        self.balances.apply_tx(tx)?;
        self.tx_mempool.push(tx.duplicate());
        assert(self.tx_mempool@.drop_last() =~= old(self).tx_mempool@);
        Ok(())
    }

    /// Checks that `block` may follow the latest block: it carries the next
    /// sequence number and names the latest hash as its parent.
    pub fn validate_block(&self, block: &Block) -> (r: Result<(), LedgerError>)
        ensures
            self.chain_fault(*block) matches Some(e) ==> r == Err::<(), LedgerError>(e),
            self.chain_fault(*block) is None && self.has_genesis_spec()
                && block.header_spec().parent_spec() != self.latest_hash_spec() ==> (r matches Err(
                LedgerError::ParentMismatch { expected, got },
            ) && expected@ == self.latest_hash_spec() && got@ == block.header_spec().parent_spec()),
            r is Ok <==> self.chain_fault(*block) is None && (self.has_genesis_spec()
                ==> block.header_spec().parent_spec() == self.latest_hash_spec()),
    {
        let got = block.header().number();
        let expected: u64 = match &self.latest_block {
            Some(latest) => {
                let n = latest.header().number();
                if n == u64::MAX {
                    return Err(LedgerError::ChainExhausted);
                }
                n + 1
            },
            None => 0,
        };
        if got != expected {
            return Err(LedgerError::SequenceMismatch { expected, got });
        }
        if self.has_genesis_block && !hash_eq(block.header().parent(), &self.latest_block_hash) {
            return Err(
                LedgerError::ParentMismatch {
                    expected: self.latest_block_hash,
                    got: *block.header().parent(),
                },
            );
        }
        Ok(())
    }

    /// Validates `block` against the chain and applies its transactions to
    /// the balances, all or nothing.
    pub fn apply_block(&mut self, block: &Block) -> (r: Result<(), LedgerError>)
        ensures
            r is Ok <==> old(self).validate_ok(*block) && apply_txs_spec(
                old(self).balances_spec(),
                block.txs_spec(),
            ) is Some,
            r is Ok ==> final(self).balances_spec() == apply_txs_spec(
                old(self).balances_spec(),
                block.txs_spec(),
            ).unwrap(),
            r is Err ==> final(self).balances_spec() == old(self).balances_spec(),
            final(self).committed_spec() == old(self).committed_spec(),
            old(self).chain_fault(*block) matches Some(e) ==> r == Err::<(), LedgerError>(e),
            old(self).chain_fault(*block) is None && old(self).has_genesis_spec()
                && block.header_spec().parent_spec() != old(self).latest_hash_spec() ==> (r matches Err(
                LedgerError::ParentMismatch { expected, got },
            ) && expected@ == old(self).latest_hash_spec() && got@
                == block.header_spec().parent_spec()),
            old(self).validate_ok(*block) && r is Err ==> exists|k: int| #[trigger]
                refused_at(old(self).balances_spec(), block.txs_spec(), k, r),
            final(self).pending_spec() == old(self).pending_spec(),
            final(self).latest_block_spec() == old(self).latest_block_spec(),
            final(self).latest_hash_spec() == old(self).latest_hash_spec(),
            final(self).has_genesis_spec() == old(self).has_genesis_spec(),
            old(self).wf() ==> final(self).wf(),
    {
        self.validate_block(block)?;
        self.balances.apply_txs(block.txs())
    }

    /// Whether `block` passes the chain checks against this state.
    pub open spec fn validate_ok(&self, block: Block) -> bool {
        self.chain_fault(block) is None && (self.has_genesis_spec()
            ==> block.header_spec().parent_spec() == self.latest_hash_spec())
    }

    /// Commits `block` as the new latest block: it must pass the chain checks,
    /// all its transactions must apply, and its hash must be computable. On
    /// any error the state is unchanged. Returns the block's hash.
    pub fn add_block(&mut self, block: Block) -> (r: Result<crate::block::Hash, LedgerError>)
        ensures
            r is Ok <==> old(self).validate_ok(block) && apply_txs_spec(
                old(self).balances_spec(),
                block.txs_spec(),
            ) is Some && block_text_len(block) < DIGEST_LIMIT,
            r matches Ok(h) ==> {
                &&& h@ == block_hash(block)
                &&& final(self).balances_spec() == apply_txs_spec(
                    old(self).balances_spec(),
                    block.txs_spec(),
                ).unwrap()
                &&& final(self).latest_hash_spec() == h@
                &&& final(self).has_genesis_spec()
                &&& final(self).latest_block_spec() == Some(block)
                &&& final(self).committed_spec() == final(self).balances_spec()
                &&& old(self).pending_spec().len() == 0 ==> final(self).settled()
            },
            r is Err ==> *final(self) == *old(self),
            old(self).chain_fault(block) matches Some(e) ==> r == Err::<
                crate::block::Hash,
                LedgerError,
            >(e),
            old(self).chain_fault(block) is None && old(self).has_genesis_spec()
                && block.header_spec().parent_spec() != old(self).latest_hash_spec() ==> (r matches Err(
                LedgerError::ParentMismatch { expected, got },
            ) && expected@ == old(self).latest_hash_spec() && got@
                == block.header_spec().parent_spec()),
            old(self).validate_ok(block) && apply_txs_spec(
                old(self).balances_spec(),
                block.txs_spec(),
            ) is None ==> (r matches Err(e) && exists|k: int| #[trigger]
                refused_at(
                old(self).balances_spec(),
                block.txs_spec(),
                k,
                Err::<(), LedgerError>(e),
            )),
            old(self).validate_ok(block) && apply_txs_spec(
                old(self).balances_spec(),
                block.txs_spec(),
            ) is Some && block_text_len(block) >= DIGEST_LIMIT ==> (r matches Err(
                LedgerError::BlockTooLarge { bytes },
            ) && bytes == block_text_len(block)),
            final(self).pending_spec() == old(self).pending_spec(),
            old(self).wf() ==> final(self).wf(),
    {
        self.validate_block(&block)?;
        let mut balances = self.balances.duplicate();
        balances.apply_txs(block.txs())?;
        let hash = block.hash()?;
        self.balances = balances;
        self.committed = Ghost(self.balances@);
        self.latest_block = Some(block);
        self.latest_block_hash = hash;
        self.has_genesis_block = true;
        Ok(hash)
    }

    /// Seals the pending pool into the next block, made at `time`, and
    /// commits it; the pool is emptied. The pending transactions were applied
    /// to the balances when they were added, so balances do not change. On an
    /// error nothing changes.
    pub fn persist(&mut self, time: u64) -> (r: Result<crate::block::Hash, LedgerError>)
        ensures
            r matches Ok(h) ==> {
                &&& final(self).latest_block_spec() matches Some(b) && b.txs_spec()
                    == old(self).pending_spec() && b.header_spec().number_spec()
                    == old(self).next_number() && b.header_spec().parent_spec()
                    == old(self).latest_hash_spec() && b.header_spec().time_spec() == time
                    && h@ == block_hash(b)
                &&& final(self).latest_hash_spec() == h@
                &&& final(self).has_genesis_spec()
                &&& final(self).pending_spec() == Seq::<Tx>::empty()
                &&& final(self).balances_spec() == old(self).balances_spec()
                &&& final(self).committed_spec() == old(self).balances_spec()
                &&& final(self).settled()
                &&& old(self).settled() ==> apply_txs_spec(
                    old(self).committed_spec(),
                    old(self).pending_spec(),
                ) == Some(final(self).committed_spec())
                &&& block_text_len(final(self).latest_block_spec().unwrap()) < DIGEST_LIMIT
            },
            r is Ok <==> old(self).next_number() <= u64::MAX && fields_text_len(
                old(self).latest_hash_spec(),
                old(self).next_number() as u64,
                time,
                old(self).pending_spec(),
            ) < DIGEST_LIMIT,
            r is Err ==> *final(self) == *old(self),
            old(self).next_number() > u64::MAX ==> r == Err::<
                crate::block::Hash,
                LedgerError,
            >(LedgerError::ChainExhausted),
            old(self).next_number() <= u64::MAX && fields_text_len(
                old(self).latest_hash_spec(),
                old(self).next_number() as u64,
                time,
                old(self).pending_spec(),
            ) >= DIGEST_LIMIT ==> (r matches Err(LedgerError::BlockTooLarge { bytes }) && bytes
                == fields_text_len(
                old(self).latest_hash_spec(),
                old(self).next_number() as u64,
                time,
                old(self).pending_spec(),
            )),
            old(self).wf() ==> final(self).wf(),
    {
        let number: u64 = match &self.latest_block {
            Some(latest) => {
                let n = latest.header().number();
                if n == u64::MAX {
                    return Err(LedgerError::ChainExhausted);
                }
                n + 1
            },
            None => 0,
        };
        let mut txs: Vec<Tx> = Vec::new();
        let mut i: usize = 0;
        while i < self.tx_mempool.len()
            invariant
                0 <= i <= self.tx_mempool@.len(),
                txs@ == self.tx_mempool@.take(i as int),
            decreases self.tx_mempool.len() - i,
        {
            txs.push(self.tx_mempool[i].duplicate());
            i += 1;
            assert(txs@ =~= self.tx_mempool@.take(i as int));
        }
        assert(txs@ =~= self.tx_mempool@);
        let block = Block::new(self.latest_block_hash, time, txs, number);
        let hash = block.hash()?;
        self.latest_block = Some(block);
        self.latest_block_hash = hash;
        self.has_genesis_block = true;
        self.tx_mempool = Vec::new();
        self.committed = Ghost(self.balances@);
        Ok(hash)
    }

    /// Rebuilds the state by replaying `log` over the genesis balances. The
    /// result depends on the genesis balances and the log alone; a record
    /// whose key is not its block's hash, or whose transactions do not apply,
    /// makes the log corrupt.
    pub fn rebuild(genesis: &Genesis, log: &Vec<BlockFS>) -> (r: Result<State, LedgerError>)
        ensures
            r is Ok <==> replay(genesis@, log@) is Some,
            r matches Ok(s) ==> {
                let p = replay(genesis@, log@).unwrap();
                &&& s.balances_spec() == p.0
                &&& same_block(s.latest_block_spec(), p.1)
                &&& s.latest_hash_spec() == p.2
                &&& s.has_genesis_spec() == p.1 is Some
                &&& s.pending_spec() == Seq::<Tx>::empty()
                &&& s.committed_spec() == p.0
                &&& s.settled()
                &&& genesis.wf() ==> s.wf()
            },
            r is Err ==> (r matches Err(LedgerError::CorruptLog { record }) && record < log@.len()
                && replay(genesis@, log@.take(record as int)) is Some && replay(
                genesis@,
                log@.take(record + 1),
            ) is None),
    {
        let mut state = State::new(genesis);
        let mut i: usize = 0;
        while i < log.len()
            invariant
                0 <= i <= log@.len(),
                replay(genesis@, log@.take(i as int)) matches Some(p) && state.balances_spec()
                    == p.0 && same_block(state.latest_block_spec(), p.1) && state.latest_hash_spec()
                    == p.2,
                state.has_genesis_spec() == state.latest_block_spec() is Some,
                state.pending_spec() == Seq::<Tx>::empty(),
                state.committed_spec() == state.balances_spec(),
                genesis.wf() ==> state.wf(),
            decreases log.len() - i,
        {
            let record = &log[i];
            proof {
                assert(log@.take(i + 1).drop_last() =~= log@.take(i as int));
                assert(log@.take(i + 1).last() == log@[i as int]);
            }
            let sound = match record.value.hash() {
                Ok(h) => hash_eq(&h, &record.key),
                Err(_) => false,
            };
            if !sound {
                proof {
                    lemma_replay_none_extends(genesis@, log@, i + 1);
                }
                return Err(LedgerError::CorruptLog { record: i as u64 });
            }
            match state.balances.apply_txs(record.value.txs()) {
                Ok(()) => {},
                Err(_) => {
                    proof {
                        lemma_replay_none_extends(genesis@, log@, i + 1);
                    }
                    return Err(LedgerError::CorruptLog { record: i as u64 });
                },
            }
            state.committed = Ghost(state.balances@);
            state.latest_block = Some(record.value.duplicate());
            state.latest_block_hash = record.key;
            state.has_genesis_block = true;
            i += 1;
        }
        assert(log@.take(i as int) =~= log@);
        Ok(state)
    }

    /// The chain as a value: balances, latest block and latest hash.
    pub open spec fn chain(&self) -> Replayed {
        (self.balances_spec(), self.latest_block_spec(), self.latest_hash_spec())
    }

    /// Commits `blocks` in order with `add_block`, stopping at the first one
    /// refused; the blocks before it stay committed.
    pub fn add_blocks(&mut self, blocks: Vec<Block>) -> (r: Result<(), LedgerError>)
        requires
            old(self).wf(),
        ensures
            r is Ok <==> commit_blocks(old(self).chain(), blocks@) is Some,
            r is Ok ==> final(self).chain() == commit_blocks(old(self).chain(), blocks@).unwrap(),
            r is Err ==> exists|k: int|
                0 <= k < blocks@.len() && #[trigger] commit_blocks(
                    old(self).chain(),
                    blocks@.take(k),
                ) == Some(final(self).chain()) && commit_block(final(self).chain(), blocks@[k])
                    is None,
            final(self).pending_spec() == old(self).pending_spec(),
            final(self).wf(),
    {
        let mut rest = blocks;
        let ghost all = rest@;
        let ghost c0 = self.chain();
        let ghost mut i: int = 0;
        while rest.len() > 0
            invariant
                0 <= i <= all.len(),
                rest@ == all.skip(i),
                all == blocks@,
                c0 == old(self).chain(),
                commit_blocks(c0, all.take(i)) == Some(self.chain()),
                self.wf(),
                self.pending_spec() == old(self).pending_spec(),
            decreases rest.len(),
        {
            let block = rest.remove(0);
            proof {
                assert(block == all[i]);
                assert(all.take(i + 1).drop_last() =~= all.take(i));
                assert(all.take(i + 1).last() == all[i]);
            }
            let ghost before = self.chain();
            match self.add_block(block) {
                Ok(_) => {
                    assert(commit_block(before, all[i]) == Some(self.chain()));
                },
                Err(e) => {
                    assert(commit_block(before, all[i]) is None);
                    proof {
                        lemma_commit_blocks_none_extends(c0, all, i + 1);
                        assert(commit_blocks(c0, all.take(i)) == Some(self.chain()));
                        assert(commit_blocks(old(self).chain(), blocks@.take(i)) == Some(
                            self.chain(),
                        ));
                    }
                    return Err(e);
                },
            }
            proof {
                i = i + 1;
            }
            assert(rest@ =~= all.skip(i));
        }
        assert(all.take(i) =~= all);
        Ok(())
    }

    /// A copy of the state.
    pub fn copy(&self) -> (r: State)
        ensures
            r.balances_spec() == self.balances_spec(),
            r.committed_spec() == self.committed_spec(),
            r.pending_spec() == self.pending_spec(),
            r.latest_hash_spec() == self.latest_hash_spec(),
            r.has_genesis_spec() == self.has_genesis_spec(),
            same_block(r.latest_block_spec(), self.latest_block_spec()),
            self.wf() ==> r.wf(),
    {
        let mut pending: Vec<Tx> = Vec::new();
        let mut i: usize = 0;
        while i < self.tx_mempool.len()
            invariant
                0 <= i <= self.tx_mempool@.len(),
                pending@ == self.tx_mempool@.take(i as int),
            decreases self.tx_mempool.len() - i,
        {
            pending.push(self.tx_mempool[i].duplicate());
            i += 1;
            assert(pending@ =~= self.tx_mempool@.take(i as int));
        }
        assert(pending@ =~= self.tx_mempool@);
        let latest_block = match &self.latest_block {
            Some(b) => Some(b.duplicate()),
            None => None,
        };
        State {
            balances: self.balances.duplicate(),
            committed: self.committed,
            tx_mempool: pending,
            latest_block,
            latest_block_hash: self.latest_block_hash,
            has_genesis_block: self.has_genesis_block,
        }
    }

    pub fn get_balances(&self) -> (r: &Balances)
        ensures
            r@ == self.balances_spec(),
    {
        &self.balances
    }

    pub fn latest_block_hash(&self) -> (r: crate::block::Hash)
        ensures
            r@ == self.latest_hash_spec(),
    {
        self.latest_block_hash
    }

    pub fn latest_block(&self) -> (r: &Option<Block>)
        ensures
            *r == self.latest_block_spec(),
    {
        &self.latest_block
    }

    /// The pending pool, oldest first.
    pub fn pending(&self) -> (r: &Vec<Tx>)
        ensures
            r@ == self.pending_spec(),
    {
        &self.tx_mempool
    }
}

/// Transactions with the same fields apply alike.
proof fn lemma_apply_txs_by_content(s: BalanceEntries, a: Seq<Tx>, b: Seq<Tx>)
    requires
        a.len() == b.len(),
        forall|i: int| 0 <= i < a.len() ==> same_tx(a[i], b[i]),
    ensures
        apply_txs_spec(s, a) == apply_txs_spec(s, b),
    decreases a.len(),
{
    if a.len() > 0 {
        lemma_apply_txs_by_content(s, a.drop_last(), b.drop_last());
        assert(same_tx(a.last(), b.last()));
    }
}

/// Two logs that record the same keys and blocks with the same content.
pub open spec fn same_log(a: Seq<BlockFS>, b: Seq<BlockFS>) -> bool {
    &&& a.len() == b.len()
    &&& forall|i: int|
        0 <= i < a.len() ==> a[i].key@ == b[i].key@ && same_content(a[i].value, b[i].value)
}

/// Replay is deterministic: two readings of the same log, over the same
/// genesis balances, both fail or both yield the same balances, the same
/// latest hash and a latest block with the same content.
pub proof fn lemma_replay_deterministic(g: BalanceEntries, a: Seq<BlockFS>, b: Seq<BlockFS>)
    requires
        same_log(a, b),
    ensures
        replay(g, a) is Some == replay(g, b) is Some,
        replay(g, a) is Some ==> {
            let (pa, pb) = (replay(g, a).unwrap(), replay(g, b).unwrap());
            &&& pa.0 == pb.0
            &&& pa.2 == pb.2
            &&& pa.1 is Some == pb.1 is Some
            &&& pa.1 is Some ==> same_content(pa.1.unwrap(), pb.1.unwrap())
        },
    decreases a.len(),
{
    if a.len() > 0 {
        let (ra, rb) = (a.last(), b.last());
        assert(same_log(a.drop_last(), b.drop_last()));
        lemma_replay_deterministic(g, a.drop_last(), b.drop_last());
        assert(ra.key@ == rb.key@ && same_content(ra.value, rb.value));
        lemma_hash_by_content(ra.value, rb.value);
        if replay(g, a.drop_last()) is Some {
            lemma_apply_txs_by_content(
                replay(g, a.drop_last()).unwrap().0,
                ra.value.txs_spec(),
                rb.value.txs_spec(),
            );
        }
    }
}

/// Replay agrees with commit: when replaying `log` yields balances `c`, a
/// record whose key is the hash of its block, and whose transactions apply to
/// `c`, extends the log to one whose replay yields the balances after those
/// transactions, that block and that key. `persist` and `add_block` produce
/// such records, so rebuilding from the extended log yields the state that
/// committing produced.
pub proof fn lemma_replay_extends(g: BalanceEntries, log: Seq<BlockFS>, rec: BlockFS)
    requires
        replay(g, log) is Some,
        record_sound(rec),
        apply_txs_spec(replay(g, log).unwrap().0, rec.value.txs_spec()) is Some,
    ensures
        replay(g, log.push(rec)) == Some(
            (
                apply_txs_spec(replay(g, log).unwrap().0, rec.value.txs_spec()).unwrap(),
                Some(rec.value),
                rec.key@,
            ),
        ),
{
    assert(log.push(rec).drop_last() =~= log);
}

/// The chain after committing `b`, or `None` when `b` is refused: it must
/// carry the next sequence number, name the latest hash as its parent when a
/// block exists, have all its transactions apply and have a computable hash.
pub open spec fn commit_block(c: Replayed, b: Block) -> Option<Replayed> {
    let next: int = match c.1 {
        Some(l) => l.header_spec().number_spec() + 1,
        None => 0,
    };
    if next <= u64::MAX && b.header_spec().number_spec() == next && (c.1 is Some
        ==> b.header_spec().parent_spec() == c.2) && apply_txs_spec(c.0, b.txs_spec()) is Some
        && block_text_len(b) < DIGEST_LIMIT {
        Some((apply_txs_spec(c.0, b.txs_spec()).unwrap(), Some(b), block_hash(b)))
    } else {
        None
    }
}

/// The chain after committing `blocks` in order, or `None` when one is refused.
pub open spec fn commit_blocks(c: Replayed, blocks: Seq<Block>) -> Option<Replayed>
    decreases blocks.len(),
{
    if blocks.len() == 0 {
        Some(c)
    } else {
        match commit_blocks(c, blocks.drop_last()) {
            Some(c1) => commit_block(c1, blocks.last()),
            None => None,
        }
    }
}

proof fn lemma_commit_blocks_none_extends(c: Replayed, blocks: Seq<Block>, n: int)
    requires
        0 <= n <= blocks.len(),
        commit_blocks(c, blocks.take(n)) is None,
    ensures
        commit_blocks(c, blocks) is None,
    decreases blocks.len() - n,
{
    if n < blocks.len() {
        assert(blocks.take(n + 1).drop_last() =~= blocks.take(n));
        lemma_commit_blocks_none_extends(c, blocks, n + 1);
    } else {
        assert(blocks.take(n) =~= blocks);
    }
}

/// Once a prefix of the log fails to replay, so does every longer prefix.
proof fn lemma_replay_none_extends(g: BalanceEntries, log: Seq<BlockFS>, n: int)
    requires
        0 <= n <= log.len(),
        replay(g, log.take(n)) is None,
    ensures
        replay(g, log) is None,
    decreases log.len() - n,
{
    if n < log.len() {
        assert(log.take(n + 1).drop_last() =~= log.take(n));
        lemma_replay_none_extends(g, log, n + 1);
    } else {
        assert(log.take(n) =~= log);
    }
}

} // verus!
