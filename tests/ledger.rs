use tbb_ledger::codec::{block_to_json, push_decimal, record_line};
use tbb_ledger::{
    get_blocks_db_file_path, get_database_dir_path, get_genesis_json_file_path, new_account,
    Balances, Block, BlockFS, Genesis, GenesisJson, LedgerError, State, Tx,
};

fn genesis_with(entries: &[(&str, u64)]) -> Genesis {
    let mut g = Genesis::new();
    for (a, v) in entries {
        g.set_balance(new_account(a), *v);
    }
    g
}

fn balance(state: &State, account: &str) -> u64 {
    state.get_balances().get(&new_account(account))
}

fn total(b: &Balances) -> u128 {
    let mut t: u128 = 0;
    for i in 0..b.len() {
        t += b.entry(i).1 as u128;
    }
    t
}

fn tx(from: &str, to: &str, value: u64, data: &str) -> Tx {
    Tx::new(new_account(from), new_account(to), &value, data)
}

fn hex(h: &tbb_ledger::block::Hash) -> String {
    h.iter().map(|b| format!("{:02x}", b)).collect()
}

#[test]
fn tx_fields_and_reward_marker() {
    let t = tx("alice", "bob", 50, "");
    assert_eq!(t.from(), "alice");
    assert_eq!(t.to(), "bob");
    assert_eq!(t.value(), 50);
    assert_eq!(t.data(), "");
    assert!(!t.is_reward());
    assert!(tx("system", "bob", 100, "reward").is_reward());
    assert!(!tx("system", "bob", 100, "Reward").is_reward());
}

#[test]
fn balances_get_and_set() {
    let mut b = Balances::new();
    assert_eq!(b.get(&new_account("x")), 0);
    b.set(new_account("x"), 5);
    b.set(new_account("y"), 7);
    b.set(new_account("x"), 9);
    assert_eq!(b.len(), 2);
    assert_eq!(b.get(&new_account("x")), 9);
    assert_eq!(b.get(&new_account("y")), 7);
    assert_eq!(b.position(&new_account("y")), Some(1));
    assert_eq!(b.position(&new_account("z")), None);
}

#[test]
fn genesis_balances() {
    let mut g = genesis_with(&[("andrej", 1000000)]);
    assert_eq!(g.get_balance(&new_account("andrej")), 1000000);
    assert_eq!(g.get_balance(&new_account("nobody")), 0);
    g.set_balance(new_account("andrej"), 3);
    assert_eq!(g.get_balances().get(&new_account("andrej")), 3);
}

#[test]
fn transfer_moves_value() {
    let mut b = Balances::new();
    b.set(new_account("alice"), 100);
    assert!(b.apply_tx(&tx("alice", "bob", 30, "")).is_ok());
    assert_eq!(b.get(&new_account("alice")), 70);
    assert_eq!(b.get(&new_account("bob")), 30);
}

#[test]
fn transfer_over_balance_is_refused_and_changes_nothing() {
    let mut b = Balances::new();
    b.set(new_account("alice"), 100);
    let r = b.apply_tx(&tx("alice", "bob", 101, ""));
    assert_eq!(
        r,
        Err(LedgerError::InsufficientFunds {
            account: new_account("alice"),
            balance: 100,
            required: 101
        })
    );
    assert_eq!(b.get(&new_account("alice")), 100);
    assert_eq!(b.get(&new_account("bob")), 0);
    assert_eq!(b.len(), 1);
}

#[test]
fn transfer_from_unknown_account_is_refused() {
    let mut b = Balances::new();
    let r = b.apply_tx(&tx("ghost", "bob", 1, ""));
    assert!(matches!(r, Err(LedgerError::InsufficientFunds { balance: 0, required: 1, .. })));
}

#[test]
fn transfer_to_self_keeps_balance() {
    let mut b = Balances::new();
    b.set(new_account("alice"), 100);
    assert!(b.apply_tx(&tx("alice", "alice", 60, "")).is_ok());
    assert_eq!(b.get(&new_account("alice")), 100);
    assert!(b.apply_tx(&tx("alice", "alice", 101, "")).is_err());
}

#[test]
fn reward_credits_without_sender_check() {
    let mut b = Balances::new();
    b.set(new_account("bob"), 5);
    assert!(b.apply_tx(&tx("system", "bob", 100, "reward")).is_ok());
    assert_eq!(b.get(&new_account("bob")), 105);
    assert_eq!(b.get(&new_account("system")), 0);
    assert_eq!(b.len(), 1);
}

#[test]
fn credit_past_max_is_refused() {
    let mut b = Balances::new();
    b.set(new_account("bob"), u64::MAX);
    let r = b.apply_tx(&tx("system", "bob", 1, "reward"));
    assert_eq!(
        r,
        Err(LedgerError::BalanceOverflow { account: new_account("bob"), balance: u64::MAX, credit: 1 })
    );
    b.set(new_account("alice"), 10);
    let r = b.apply_tx(&tx("alice", "bob", 10, ""));
    assert!(matches!(r, Err(LedgerError::BalanceOverflow { credit: 10, .. })));
    assert_eq!(b.get(&new_account("alice")), 10);
}

#[test]
fn apply_txs_is_all_or_nothing() {
    let mut b = Balances::new();
    b.set(new_account("alice"), 100);
    let txs = vec![tx("alice", "bob", 60, ""), tx("alice", "carol", 60, "")];
    assert!(b.apply_txs(&txs).is_err());
    assert_eq!(b.get(&new_account("alice")), 100);
    assert_eq!(b.len(), 1);
}

#[test]
fn total_is_conserved_except_rewards() {
    let mut b = Balances::new();
    b.set(new_account("alice"), 1000);
    b.set(new_account("bob"), 10);
    let before = total(&b);
    let txs = vec![
        tx("alice", "bob", 300, ""),
        tx("bob", "carol", 200, ""),
        tx("system", "dave", 77, "reward"),
        tx("carol", "alice", 50, ""),
        tx("x", "bob", 3, "reward"),
    ];
    assert!(b.apply_txs(&txs).is_ok());
    assert_eq!(total(&b), before + 80);
    assert_eq!(b.get(&new_account("alice")), 750);
    assert_eq!(b.get(&new_account("bob")), 113);
    assert_eq!(b.get(&new_account("carol")), 150);
    assert_eq!(b.get(&new_account("dave")), 77);
}

#[test]
fn decimal_text() {
    let mut s = String::from("n=");
    push_decimal(&mut s, 0);
    push_decimal(&mut s, 1234567890);
    assert_eq!(s, "n=01234567890");
    let mut m = String::new();
    push_decimal(&mut m, u64::MAX);
    assert_eq!(m, "18446744073709551615");
}

#[test]
fn block_canonical_json_and_hash() {
    let b = Block::new([0u8; 32], 1700000000, vec![tx("alice", "bob", 50, "")], 0);
    let json = block_to_json(&b);
    let expected = String::from("{\"header\":{\"parent\":[")
        + &vec!["0"; 32].join(",")
        + "],\"number\":0,\"time\":1700000000},\"payload\":[{\"from\":\"alice\",\"to\":\"bob\",\"value\":50,\"data\":\"\"}]}";
    assert_eq!(json, expected);
    let h = b.hash().unwrap();
    assert_eq!(hex(&h), "e7cd454682b0905b14585721316ba74392fd340a11be4365f4f7076722dc47af");
    let empty = Block::new([0u8; 32], 7, vec![], 0);
    assert_eq!(
        hex(&empty.hash().unwrap()),
        "eed9b38a612f7eccad67c63608005200e82a411ef3eb59956721f59806cdff66"
    );
}

#[test]
fn block_json_escapes_strings() {
    let b = Block::new([0u8; 32], 7, vec![tx("a\"b", "c\\d", 1, "line\nx")], 0);
    let json = block_to_json(&b);
    assert!(json.ends_with(
        "\"payload\":[{\"from\":\"a\\\"b\",\"to\":\"c\\\\d\",\"value\":1,\"data\":\"line\\nx\"}]}"
    ));
}

#[test]
fn record_line_holds_hex_key_and_block() {
    let b = Block::new([0u8; 32], 7, vec![], 0);
    let h = b.hash().unwrap();
    let line = record_line(&h, &b);
    assert_eq!(
        line,
        format!("{{\"key\":\"{}\",\"block\":{}}}\n", hex(&h), block_to_json(&b))
    );
}

fn block_from_value(v: &serde_json::Value) -> Block {
    let header = &v["header"];
    let mut parent = [0u8; 32];
    for (i, p) in header["parent"].as_array().unwrap().iter().enumerate() {
        parent[i] = p.as_u64().unwrap() as u8;
    }
    let txs = v["payload"]
        .as_array()
        .unwrap()
        .iter()
        .map(|t| {
            tx(
                t["from"].as_str().unwrap(),
                t["to"].as_str().unwrap(),
                t["value"].as_u64().unwrap(),
                t["data"].as_str().unwrap(),
            )
        })
        .collect();
    Block::new(
        parent,
        header["time"].as_u64().unwrap(),
        txs,
        header["number"].as_u64().unwrap(),
    )
}

#[test]
fn block_round_trip_keeps_hash() {
    let mut parent = [0u8; 32];
    for (i, p) in parent.iter_mut().enumerate() {
        *p = (i * 7 + 200) as u8;
    }
    let b = Block::new(
        parent,
        123456,
        vec![tx("al\"ice", "bób", 50, ""), tx("sys", "bob", 9, "reward")],
        42,
    );
    let text = block_to_json(&b);
    let value: serde_json::Value = serde_json::from_str(&text).unwrap();
    let back = block_from_value(&value);
    assert_eq!(back.hash().unwrap(), b.hash().unwrap());
    assert_eq!(block_to_json(&back), text);
}

#[test]
fn paths_under_data_dir() {
    assert_eq!(get_genesis_json_file_path("data"), "data/genesis.json");
    assert_eq!(get_blocks_db_file_path("data/"), "data/block.db");
    assert_eq!(get_database_dir_path("/tmp/x"), "/tmp/x/src/database");
    assert_eq!(get_blocks_db_file_path(""), "block.db");
}

#[test]
fn scenario_transfer_commit() {
    let g = genesis_with(&[("alice", 1000000)]);
    let mut s = State::new(&g);
    let prior = s.latest_block_hash();
    assert!(s.add_tx(&tx("alice", "bob", 50, "")).is_ok());
    let h = s.persist(1700000000).unwrap();
    assert_eq!(balance(&s, "alice"), 999950);
    assert_eq!(balance(&s, "bob"), 50);
    let latest = s.latest_block().as_ref().unwrap();
    assert_eq!(latest.header().number(), 0);
    assert_eq!(*latest.header().parent(), prior);
    assert_eq!(s.latest_block_hash(), h);
    assert_eq!(latest.hash().unwrap(), h);
    assert!(s.pending().is_empty());
    assert!(s.add_tx(&tx("bob", "carol", 20, "")).is_ok());
    s.persist(1700000001).unwrap();
    let latest = s.latest_block().as_ref().unwrap();
    assert_eq!(latest.header().number(), 1);
    assert_eq!(*latest.header().parent(), h);
}

#[test]
fn scenario_reward_commit() {
    let g = genesis_with(&[("alice", 1000000), ("bob", 7)]);
    let mut s = State::new(&g);
    assert!(s.add_tx(&tx("system", "bob", 100, "reward")).is_ok());
    assert!(s.persist(5).is_ok());
    assert_eq!(balance(&s, "bob"), 107);
    assert_eq!(balance(&s, "alice"), 1000000);
    assert_eq!(balance(&s, "system"), 0);
}

#[test]
fn scenario_overspend_rejected() {
    let g = genesis_with(&[("alice", 1000000)]);
    let mut s = State::new(&g);
    let r = s.add_tx(&tx("alice", "bob", 2000000, ""));
    assert!(matches!(r, Err(LedgerError::InsufficientFunds { .. })));
    assert_eq!(balance(&s, "alice"), 1000000);
    assert_eq!(balance(&s, "bob"), 0);
    assert!(s.pending().is_empty());
    assert!(s.latest_block().is_none());
    assert_eq!(s.latest_block_hash(), [0u8; 32]);
}

#[test]
fn block_with_wrong_number_is_refused() {
    let g = genesis_with(&[("alice", 100)]);
    let mut s = State::new(&g);
    let r = s.add_block(Block::new([0u8; 32], 1, vec![], 1));
    assert_eq!(r, Err(LedgerError::SequenceMismatch { expected: 0, got: 1 }));
    let h0 = s.add_block(Block::new([0u8; 32], 1, vec![tx("alice", "bob", 10, "")], 0)).unwrap();
    let r = s.add_block(Block::new(h0, 2, vec![tx("alice", "bob", 10, "")], 5));
    assert_eq!(r, Err(LedgerError::SequenceMismatch { expected: 1, got: 5 }));
    assert_eq!(s.latest_block_hash(), h0);
    assert_eq!(balance(&s, "alice"), 90);
}

#[test]
fn block_with_wrong_parent_is_refused() {
    let g = genesis_with(&[("alice", 100)]);
    let mut s = State::new(&g);
    let h0 = s.add_block(Block::new([0u8; 32], 1, vec![], 0)).unwrap();
    let r = s.add_block(Block::new([9u8; 32], 2, vec![tx("alice", "bob", 10, "")], 1));
    assert_eq!(r, Err(LedgerError::ParentMismatch { expected: h0, got: [9u8; 32] }));
    assert_eq!(balance(&s, "alice"), 100);
    assert_eq!(s.latest_block_hash(), h0);
    assert!(s.add_block(Block::new(h0, 2, vec![tx("alice", "bob", 10, "")], 1)).is_ok());
    assert_eq!(balance(&s, "bob"), 10);
}

#[test]
fn block_with_failing_tx_changes_nothing() {
    let g = genesis_with(&[("alice", 100)]);
    let mut s = State::new(&g);
    let b = Block::new([0u8; 32], 1, vec![tx("alice", "bob", 60, ""), tx("alice", "bob", 60, "")], 0);
    assert!(matches!(s.add_block(b), Err(LedgerError::InsufficientFunds { .. })));
    assert_eq!(balance(&s, "alice"), 100);
    assert!(s.latest_block().is_none());
}

fn committed_log() -> (Genesis, Vec<BlockFS>, State) {
    let g = genesis_with(&[("alice", 1000)]);
    let mut s = State::new(&g);
    let mut log = Vec::new();
    for (i, t) in [tx("alice", "bob", 50, ""), tx("sys", "carol", 5, "reward")].iter().enumerate() {
        s.add_tx(t).unwrap();
        let h = s.persist(100 + i as u64).unwrap();
        log.push(BlockFS { key: h, value: s.latest_block().clone().unwrap() });
    }
    (g, log, s)
}

#[test]
fn rebuild_replays_committed_blocks() {
    let (g, log, s) = committed_log();
    let r = State::rebuild(&g, &log).unwrap();
    assert_eq!(r.latest_block_hash(), s.latest_block_hash());
    assert_eq!(balance(&r, "alice"), 950);
    assert_eq!(balance(&r, "bob"), 50);
    assert_eq!(balance(&r, "carol"), 5);
    assert_eq!(r.latest_block().as_ref().unwrap().header().number(), 1);
}

#[test]
fn rebuild_twice_gives_same_state() {
    let (g, log, _) = committed_log();
    let a = State::rebuild(&g, &log).unwrap();
    let b = State::rebuild(&g, &log).unwrap();
    assert_eq!(a.latest_block_hash(), b.latest_block_hash());
    assert_eq!(a.get_balances().len(), b.get_balances().len());
    for i in 0..a.get_balances().len() {
        assert_eq!(a.get_balances().entry(i), b.get_balances().entry(i));
    }
}

#[test]
fn rebuild_of_empty_log_is_genesis() {
    let g = genesis_with(&[("alice", 1000)]);
    let r = State::rebuild(&g, &Vec::new()).unwrap();
    assert_eq!(balance(&r, "alice"), 1000);
    assert_eq!(r.latest_block_hash(), [0u8; 32]);
    assert!(r.latest_block().is_none());
}

#[test]
fn rebuild_refuses_wrong_key() {
    let (g, mut log, _) = committed_log();
    log[1].key = [1u8; 32];
    assert_eq!(State::rebuild(&g, &log).err(), Some(LedgerError::CorruptLog { record: 1 }));
}

#[test]
fn rebuild_refuses_block_that_does_not_apply() {
    let g = genesis_with(&[("alice", 10)]);
    let b = Block::new([0u8; 32], 1, vec![tx("alice", "bob", 11, "")], 0);
    let log = vec![BlockFS { key: b.hash().unwrap(), value: b }];
    assert_eq!(State::rebuild(&g, &log).err(), Some(LedgerError::CorruptLog { record: 0 }));
}

#[test]
fn chain_ends_at_largest_number() {
    let g = genesis_with(&[]);
    let b = Block::new([0u8; 32], 1, vec![], u64::MAX);
    let log = vec![BlockFS { key: b.hash().unwrap(), value: b }];
    let mut s = State::rebuild(&g, &log).unwrap();
    assert_eq!(s.persist(2), Err(LedgerError::ChainExhausted));
    assert_eq!(s.add_block(Block::new([0u8; 32], 2, vec![], 0)), Err(LedgerError::ChainExhausted));
}

#[test]
fn apply_block_checks_chain_then_applies() {
    let g = genesis_with(&[("alice", 100)]);
    let mut s = State::new(&g);
    assert!(s.apply_block(&Block::new([0u8; 32], 1, vec![tx("alice", "bob", 10, "")], 0)).is_ok());
    assert_eq!(balance(&s, "bob"), 10);
    assert!(s.latest_block().is_none());
    assert!(s.validate_block(&Block::new([0u8; 32], 1, vec![], 3)).is_err());
    let c = s.copy();
    assert_eq!(c.latest_block_hash(), s.latest_block_hash());
    assert_eq!(balance(&c, "bob"), 10);
}

#[test]
fn genesis_from_document_keeps_balances() {
    let mut balances = Balances::new();
    balances.set(new_account("andrej"), 1000000);
    let doc = GenesisJson {
        genesis_time: String::from("2019-03-18T00:00:00.000000000Z"),
        chain_id: String::from("the-blockchain-bar-ledger"),
        balances,
    };
    let g = Genesis::from_json(doc);
    assert_eq!(g.get_balance(&new_account("andrej")), 1000000);
    let s = State::new(&g);
    assert_eq!(balance(&s, "andrej"), 1000000);
    assert!(s.latest_block().is_none());
}

#[test]
fn state_apply_tx_leaves_pool_alone() {
    let g = genesis_with(&[("alice", 10)]);
    let mut s = State::new(&g);
    assert!(s.apply_tx(&tx("alice", "bob", 4, "")).is_ok());
    assert_eq!(balance(&s, "bob"), 4);
    assert!(s.pending().is_empty());
    assert!(s.add_tx(&tx("bob", "carol", 4, "")).is_ok());
    assert_eq!(s.pending().len(), 1);
    assert_eq!(s.pending()[0].to(), "carol");
}

#[test]
fn duplicates_keep_fields() {
    let t = tx("a", "b", 3, "reward");
    let d = t.duplicate();
    assert_eq!((d.from(), d.to(), d.value(), d.data()), (t.from(), t.to(), t.value(), t.data()));
    let b = Block::new([3u8; 32], 9, vec![t], 4);
    assert_eq!(b.duplicate().hash().unwrap(), b.hash().unwrap());
    let c = Balances::new().duplicate();
    assert_eq!(c.len(), 0);
}

#[test]
fn add_blocks_commits_in_order_and_stops_at_refusal() {
    let g = genesis_with(&[("alice", 100)]);
    let mut s = State::new(&g);
    let b0 = Block::new([0u8; 32], 1, vec![tx("alice", "bob", 10, "")], 0);
    let h0 = b0.hash().unwrap();
    let b1 = Block::new(h0, 2, vec![tx("alice", "bob", 5, "")], 1);
    let h1 = b1.hash().unwrap();
    assert!(s.add_blocks(vec![b0, b1]).is_ok());
    assert_eq!(s.latest_block_hash(), h1);
    assert_eq!(balance(&s, "bob"), 15);
    let b2 = Block::new(h1, 3, vec![tx("bob", "carol", 1, "")], 2);
    let h2 = b2.hash().unwrap();
    let bad = Block::new(h1, 4, vec![], 7);
    let r = s.add_blocks(vec![b2, bad]);
    assert_eq!(r, Err(LedgerError::SequenceMismatch { expected: 3, got: 7 }));
    assert_eq!(s.latest_block_hash(), h2);
    assert_eq!(balance(&s, "carol"), 1);
}

#[test]
fn persist_after_block_links_to_it() {
    let g = genesis_with(&[("alice", 1000000)]);
    let mut s = State::new(&g);
    let h0 = s.persist(1).unwrap();
    assert!(s.add_tx(&tx("alice", "bob", 50, "")).is_ok());
    let h1 = s.persist(2).unwrap();
    let latest = s.latest_block().as_ref().unwrap();
    assert_eq!(latest.header().number(), 1);
    assert_eq!(*latest.header().parent(), h0);
    assert_eq!(latest.hash().unwrap(), h1);
    assert_eq!(latest.txs().len(), 1);
}

#[test]
fn block_json_escapes_control_characters() {
    let b = Block::new([0u8; 32], 7, vec![tx("a\u{1}b", "t\tx\u{7f}", 1, "\u{8}\u{c}\r/é")], 0);
    let json = block_to_json(&b);
    assert!(json.ends_with(
        "\"payload\":[{\"from\":\"a\\u0001b\",\"to\":\"t\\tx\u{7f}\",\"value\":1,\"data\":\"\\b\\f\\r/é\"}]}"
    ));
}
