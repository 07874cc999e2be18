use vstd::prelude::*;
use vstd::string::*;

use crate::block::{Block, BlockHeader};
use crate::tx::Tx;

verus! {

/// JSON escape of one character: `"` and `\` are preceded by a backslash,
/// backspace, form feed, newline, carriage return and tab take their short
/// escapes, other characters below U+0020 take `\u00` and two lowercase hex
/// digits, and every other character stands as it is.
pub open spec fn json_escape_char(c: char) -> Seq<char> {
    if c == '"' {
        seq!['\\', '"']
    } else if c == '\\' {
        seq!['\\', '\\']
    } else if c == '\x08' {
        seq!['\\', 'b']
    } else if c == '\x0C' {
        seq!['\\', 'f']
    } else if c == '\n' {
        seq!['\\', 'n']
    } else if c == '\r' {
        seq!['\\', 'r']
    } else if c == '\t' {
        seq!['\\', 't']
    } else if (c as u32) < 0x20 {
        seq![
            '\\',
            'u',
            '0',
            '0',
            hex_digit(((c as u32) / 16) as u8),
            hex_digit(((c as u32) % 16) as u8),
        ]
    } else {
        seq![c]
    }
}

/// JSON escape of each character of `s`, in order.
pub open spec fn json_escape(s: Seq<char>) -> Seq<char>
    decreases s.len(),
{
    if s.len() == 0 {
        Seq::empty()
    } else {
        json_escape(s.drop_last()) + json_escape_char(s.last())
    }
}

/// The JSON string literal of `s`: its escape between double quotes.
pub open spec fn json_str_of(s: Seq<char>) -> Seq<char> {
    seq!['"'] + json_escape(s) + seq!['"']
}

/// Relies on `serde_json::to_string` on a `str`: it writes a double quote,
/// each character through the escape table above, and a double quote. Its
/// only error path is a failed write, which a `String` target never reports.
#[verifier::external_body]
fn json_string(s: &str) -> (r: String)
    ensures
        r@ == json_str_of(s@),
{
    match serde_json::to_string(s) {
        Ok(t) => t,
        Err(_) => String::new(),
    }
}

/// Lowercase hexadecimal digit for `d < 16`.
pub open spec fn hex_digit(d: u8) -> char {
    seq!['0', '1', '2', '3', '4', '5', '6', '7', '8', '9', 'a', 'b', 'c', 'd', 'e', 'f'][d as int]
}

/// Lowercase hexadecimal text of `b`, two digits per byte, high half first.
pub open spec fn hex_of(b: Seq<u8>) -> Seq<char>
    decreases b.len(),
{
    if b.len() == 0 {
        Seq::empty()
    } else {
        hex_of(b.drop_last()) + seq![hex_digit(b.last() / 16), hex_digit(b.last() % 16)]
    }
}

/// Relies on `data_encoding::HEXLOWER.encode`: two lowercase hexadecimal
/// digits per byte, in order, high half first.
#[verifier::external_body]
pub(crate) fn hex_lower(b: &[u8]) -> (r: String)
    ensures
        r@ == hex_of(b@),
{
    data_encoding::HEXLOWER.encode(b)
}

/// Decimal digit character for `d < 10`.
pub open spec fn digit_char(d: nat) -> char {
    seq!['0', '1', '2', '3', '4', '5', '6', '7', '8', '9'][d as int]
}

/// Decimal text of `n`, without leading zeros.
pub open spec fn decimal(n: nat) -> Seq<char>
    decreases n,
{
    if n < 10 {
        seq![digit_char(n)]
    } else {
        decimal(n / 10) + seq![digit_char(n % 10)]
    }
}

/// The numbers of `b` in decimal, separated by commas.
pub open spec fn number_list(b: Seq<u8>) -> Seq<char>
    decreases b.len(),
{
    if b.len() == 0 {
        Seq::empty()
    } else if b.len() == 1 {
        decimal(b[0] as nat)
    } else {
        number_list(b.drop_last()) + seq![','] + decimal(b.last() as nat)
    }
}

/// Canonical JSON of a header with these fields:
/// `{"parent":[..],"number":n,"time":t}`.
pub open spec fn header_fields_json(parent: Seq<u8>, number: u64, time: u64) -> Seq<char> {
    "{\"parent\":["@ + number_list(parent) + "],\"number\":"@ + decimal(number as nat)
        + ",\"time\":"@ + decimal(time as nat) + "}"@
}

/// Canonical JSON of a header.
pub open spec fn header_json(h: BlockHeader) -> Seq<char> {
    header_fields_json(h.parent_spec(), h.number_spec(), h.time_spec())
}

/// Canonical JSON of a transaction: `{"from":..,"to":..,"value":v,"data":..}`.
pub open spec fn tx_json(tx: Tx) -> Seq<char> {
    "{\"from\":"@ + json_str_of(tx.from_spec()) + ",\"to\":"@ + json_str_of(tx.to_spec())
        + ",\"value\":"@ + decimal(tx.value_spec() as nat) + ",\"data\":"@ + json_str_of(
        tx.data_spec(),
    ) + "}"@
}

/// The transactions' canonical JSON, separated by commas.
pub open spec fn txs_json(txs: Seq<Tx>) -> Seq<char>
    decreases txs.len(),
{
    if txs.len() == 0 {
        Seq::empty()
    } else if txs.len() == 1 {
        tx_json(txs[0])
    } else {
        txs_json(txs.drop_last()) + seq![','] + tx_json(txs.last())
    }
}

/// Canonical JSON of a block: `{"header":{..},"payload":[..]}`. Fields stand in
/// a fixed order and without spaces, so that equal blocks give equal text.
pub open spec fn block_json(b: Block) -> Seq<char> {
    block_fields_json(
        b.header_spec().parent_spec(),
        b.header_spec().number_spec(),
        b.header_spec().time_spec(),
        b.txs_spec(),
    )
}

/// Canonical JSON of the block with these header fields and transactions.
pub open spec fn block_fields_json(parent: Seq<u8>, number: u64, time: u64, txs: Seq<Tx>) -> Seq<
    char,
> {
    "{\"header\":"@ + header_fields_json(parent, number, time) + ",\"payload\":["@ + txs_json(txs)
        + "]}"@
}

/// One line of the ledger log: `{"key":"<hex>","block":{..}}` and a newline.
pub open spec fn record_json(key: Seq<u8>, b: Block) -> Seq<char> {
    "{\"key\":\""@ + hex_of(key) + "\",\"block\":"@ + block_json(b) + "}\n"@
}

/// Two transactions that carry the same fields.
pub open spec fn same_tx(a: Tx, b: Tx) -> bool {
    &&& a.from_spec() == b.from_spec()
    &&& a.to_spec() == b.to_spec()
    &&& a.value_spec() == b.value_spec()
    &&& a.data_spec() == b.data_spec()
}

/// Two blocks that carry the same header fields and, in order, transactions
/// with the same fields: what the canonical text of a block records.
pub open spec fn same_content(a: Block, b: Block) -> bool {
    &&& a.header_spec().parent_spec() == b.header_spec().parent_spec()
    &&& a.header_spec().number_spec() == b.header_spec().number_spec()
    &&& a.header_spec().time_spec() == b.header_spec().time_spec()
    &&& a.txs_spec().len() == b.txs_spec().len()
    &&& forall|i: int| 0 <= i < a.txs_spec().len() ==> same_tx(a.txs_spec()[i], b.txs_spec()[i])
}

proof fn lemma_txs_json_by_content(a: Seq<Tx>, b: Seq<Tx>)
    requires
        a.len() == b.len(),
        forall|i: int| 0 <= i < a.len() ==> same_tx(a[i], b[i]),
    ensures
        txs_json(a) == txs_json(b),
    decreases a.len(),
{
    if a.len() > 1 {
        lemma_txs_json_by_content(a.drop_last(), b.drop_last());
    }
}

/// Round trip: a block read back from the fields that its canonical text
/// records has the same canonical text, hence the same hash.
pub proof fn lemma_hash_by_content(a: Block, b: Block)
    requires
        same_content(a, b),
    ensures
        block_json(a) == block_json(b),
        crate::block::block_hash(a) == crate::block::block_hash(b),
{
    lemma_txs_json_by_content(a.txs_spec(), b.txs_spec());
}

fn digit_str(d: u64) -> (r: &'static str)
    requires
        d < 10,
    ensures
        r@ == seq![digit_char(d as nat)],
{
    proof {
        reveal_strlit("0");
        reveal_strlit("1");
        reveal_strlit("2");
        reveal_strlit("3");
        reveal_strlit("4");
        reveal_strlit("5");
        reveal_strlit("6");
        reveal_strlit("7");
        reveal_strlit("8");
        reveal_strlit("9");
    }
    if d == 0 {
        "0"
    } else if d == 1 {
        "1"
    } else if d == 2 {
        "2"
    } else if d == 3 {
        "3"
    } else if d == 4 {
        "4"
    } else if d == 5 {
        "5"
    } else if d == 6 {
        "6"
    } else if d == 7 {
        "7"
    } else if d == 8 {
        "8"
    } else {
        "9"
    }
}

/// Appends the decimal text of `n`.
pub fn push_decimal(out: &mut String, n: u64)
    ensures
        final(out)@ == old(out)@ + decimal(n as nat),
    decreases n,
{
    if n >= 10 {
        push_decimal(out, n / 10);
    }
    out.append(digit_str(n % 10));
    assert(final(out)@ =~= old(out)@ + decimal(n as nat));
}

/// Appends a literal piece of text.
fn push_str(out: &mut String, s: &str)
    ensures
        final(out)@ == old(out)@ + s@,
{
    out.append(s);
}

/// Appends the canonical JSON of a header.
pub fn push_header_json(out: &mut String, h: &BlockHeader)
    ensures
        final(out)@ == old(out)@ + header_json(*h),
{
    let parent = h.parent();
    push_str(out, "{\"parent\":[");
    let ghost start = out@;
    let mut i: usize = 0;
    while i < 32
        invariant
            0 <= i <= 32,
            parent@.len() == 32,
            parent@ == h.parent_spec(),
            out@ == start + number_list(parent@.take(i as int)),
        decreases 32 - i,
    {
        if i > 0 {
            push_str(out, ",");
        }
        push_decimal(out, parent[i] as u64);
        proof {
            reveal_strlit(",");
            assert(parent@.take(i + 1).drop_last() =~= parent@.take(i as int));
            assert(parent@.take(i + 1).last() == parent@[i as int]);
            assert(parent@.take(i + 1)[0] == parent@[0]);
        }
        i += 1;
        assert(out@ =~= start + number_list(parent@.take(i as int)));
    }
    assert(parent@.take(32) =~= parent@);
    push_str(out, "],\"number\":");
    push_decimal(out, h.number());
    push_str(out, ",\"time\":");
    push_decimal(out, h.time());
    push_str(out, "}");
    proof {
        reveal_strlit("{\"parent\":[");
        reveal_strlit("],\"number\":");
        reveal_strlit(",\"time\":");
        reveal_strlit("}");
        reveal_strlit(",");
    }
    assert(final(out)@ =~= old(out)@ + header_json(*h));
}

/// Appends the canonical JSON of a transaction.
pub fn push_tx_json(out: &mut String, tx: &Tx)
    ensures
        final(out)@ == old(out)@ + tx_json(*tx),
{
    push_str(out, "{\"from\":");
    push_str(out, json_string(tx.from().as_str()).as_str());
    push_str(out, ",\"to\":");
    push_str(out, json_string(tx.to().as_str()).as_str());
    push_str(out, ",\"value\":");
    push_decimal(out, tx.value());
    push_str(out, ",\"data\":");
    push_str(out, json_string(tx.data().as_str()).as_str());
    push_str(out, "}");
    assert(final(out)@ =~= old(out)@ + tx_json(*tx));
}

/// Appends the canonical JSON of a block.
pub fn push_block_json(out: &mut String, b: &Block)
    ensures
        final(out)@ == old(out)@ + block_json(*b),
{
    let txs = b.txs();
    push_str(out, "{\"header\":");
    push_header_json(out, b.header());
    push_str(out, ",\"payload\":[");
    let ghost start = out@;
    let mut i: usize = 0;
    while i < txs.len()
        invariant
            0 <= i <= txs@.len(),
            txs@ == b.txs_spec(),
            out@ == start + txs_json(txs@.take(i as int)),
        decreases txs.len() - i,
    {
        if i > 0 {
            push_str(out, ",");
        }
        push_tx_json(out, &txs[i]);
        proof {
            reveal_strlit(",");
            assert(txs@.take(i + 1).drop_last() =~= txs@.take(i as int));
            assert(txs@.take(i + 1).last() == txs@[i as int]);
        }
        i += 1;
        assert(out@ =~= start + txs_json(txs@.take(i as int)));
    }
    assert(txs@.take(i as int) =~= txs@);
    push_str(out, "]}");
    assert(final(out)@ =~= old(out)@ + block_json(*b));
}

/// The canonical JSON of a block, whose digest is the block's hash.
pub fn block_to_json(b: &Block) -> (r: String)
    ensures
        r@ == block_json(*b),
{
    let mut out = String::new();
    push_block_json(&mut out, b);
    assert(out@ =~= block_json(*b));
    out
}

/// The ledger log line that stores block `b` under `key`.
pub fn record_line(key: &crate::block::Hash, b: &Block) -> (r: String)
    ensures
        r@ == record_json(key@, *b),
{
    let mut out = String::new();
    push_str(&mut out, "{\"key\":\"");
    push_str(&mut out, hex_lower(key.as_slice()).as_str());
    push_str(&mut out, "\",\"block\":");
    push_block_json(&mut out, b);
    push_str(&mut out, "}\n");
    assert(out@ =~= record_json(key@, *b));
    out
}

} // verus!
