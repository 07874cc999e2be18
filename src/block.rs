use vstd::prelude::*;

use vstd::string::*;
use vstd::utf8::encode_utf8;

use crate::codec::{block_fields_json, block_json, block_to_json};
use crate::error::LedgerError;
use crate::tx::Tx;

verus! {

/// A 32-byte SHA-256 digest.
pub type Hash = [u8; 32];

/// SHA-256 of the UTF-8 bytes of the text `s`.
pub uninterp spec fn sha256_of(s: Seq<char>) -> Seq<u8>;

/// Texts of at least this many UTF-8 bytes are not digested: their length in
/// bits would not fit in 64 bits.
pub const DIGEST_LIMIT: u64 = 0x2000_0000_0000_0000;

/// Relies on `ring::digest::digest` with `SHA256`: the 32-byte SHA-256 digest
/// of the bytes given. It panics only when the bit length overflows 64 bits,
/// which the bound on the length excludes.
#[verifier::external_body]
fn sha256(s: &str) -> (r: Hash)
    requires
        s.spec_bytes().len() < DIGEST_LIMIT,
    ensures
        r@ == sha256_of(s@),
{
    let d = ring::digest::digest(&ring::digest::SHA256, s.as_bytes());
    let mut r = [0u8; 32];
    r.copy_from_slice(d.as_ref());
    r
}

/// Number of UTF-8 bytes in the canonical text of `b`.
pub open spec fn block_text_len(b: Block) -> int {
    encode_utf8(block_json(b)).len() as int
}

/// Number of UTF-8 bytes in the canonical text of the block with these
/// header fields and transactions.
pub open spec fn fields_text_len(parent: Seq<u8>, number: u64, time: u64, txs: Seq<Tx>) -> int {
    encode_utf8(block_fields_json(parent, number, time, txs)).len() as int
}

/// The hash of a block: SHA-256 of its canonical JSON.
pub open spec fn block_hash(b: Block) -> Seq<u8> {
    sha256_of(block_json(b))
}

/// Byte-wise equality of two hashes.
pub fn hash_eq(a: &Hash, b: &Hash) -> (r: bool)
    ensures
        r == (a@ == b@),
{
    let mut i: usize = 0;
    while i < 32
        invariant
            0 <= i <= 32,
            a@.len() == 32,
            b@.len() == 32,
            forall|j: int| 0 <= j < i ==> a@[j] == b@[j],
        decreases 32 - i,
    {
        if a[i] != b[i] {
            return false;
        }
        i += 1;
    }
    assert(a@ =~= b@);
    true
}

/// Header of a block: the hash of its parent, its sequence number and the
/// time at which it was made (seconds since the Unix epoch).
#[derive(Debug, Clone, Copy, PartialEq, Eq)]
pub struct BlockHeader {
    parent: Hash,
    number: u64,
    time: u64,
}

impl BlockHeader {
    pub closed spec fn parent_spec(&self) -> Seq<u8> {
        self.parent@
    }

    pub closed spec fn number_spec(&self) -> u64 {
        self.number
    }

    pub closed spec fn time_spec(&self) -> u64 {
        self.time
    }

    pub fn parent(&self) -> (r: &Hash)
        ensures
            r@ == self.parent_spec(),
    {
        &self.parent
    }

    pub fn number(&self) -> (r: u64)
        ensures
            r == self.number_spec(),
    {
        self.number
    }

    pub fn time(&self) -> (r: u64)
        ensures
            r == self.time_spec(),
    {
        self.time
    }
}

/// An ordered batch of transactions under a header.
#[derive(Debug, Clone)]
pub struct Block {
    header: BlockHeader,
    tx: Vec<Tx>,
}

impl Block {
    pub closed spec fn header_spec(&self) -> BlockHeader {
        self.header
    }

    pub closed spec fn txs_spec(&self) -> Seq<Tx> {
        self.tx@
    }

    /// Builds the block with sequence number `number` holding `tx` in order.
    pub fn new(parent: Hash, time: u64, tx: Vec<Tx>, number: u64) -> (r: Block)
        ensures
            r.header_spec().parent_spec() == parent@,
            r.header_spec().time_spec() == time,
            r.header_spec().number_spec() == number,
            r.txs_spec() == tx@,
    {
        Block { header: BlockHeader { parent, time, number }, tx }
    }

    /// The block's hash; refused when its canonical text is too long to digest.
    pub fn hash(&self) -> (r: Result<Hash, LedgerError>)
        ensures
            r is Ok <==> block_text_len(*self) < DIGEST_LIMIT,
            r matches Ok(h) ==> h@ == block_hash(*self),
            r matches Err(e) ==> (e matches LedgerError::BlockTooLarge { bytes } && bytes
                == block_text_len(*self)),
    {
        let json = block_to_json(self);
        let bytes = json.as_str().as_bytes().len();
        if bytes as u64 >= DIGEST_LIMIT {
            return Err(LedgerError::BlockTooLarge { bytes });
        }
        Ok(sha256(json.as_str()))
    }

    pub fn header(&self) -> (r: &BlockHeader)
        ensures
            *r == self.header_spec(),
    {
        &self.header
    }

    pub fn txs(&self) -> (r: &Vec<Tx>)
        ensures
            r@ == self.txs_spec(),
    {
        &self.tx
    }

    /// A field-by-field copy of the block.
    pub fn duplicate(&self) -> (r: Block)
        ensures
            r.header_spec() == self.header_spec(),
            r.txs_spec() == self.txs_spec(),
    {
        let mut tx: Vec<Tx> = Vec::new();
        let mut i: usize = 0;
        while i < self.tx.len()
            invariant
                0 <= i <= self.tx@.len(),
                tx@ == self.tx@.take(i as int),
            decreases self.tx.len() - i,
        {
            tx.push(self.tx[i].duplicate());
            i += 1;
            assert(tx@ =~= self.tx@.take(i as int));
        }
        assert(tx@ =~= self.tx@);
        Block { header: self.header, tx }
    }
}

/// A record of the ledger log: a block stored under its own hash.
#[derive(Debug, Clone)]
pub struct BlockFS {
    pub key: Hash,
    pub value: Block,
}

} // verus!
