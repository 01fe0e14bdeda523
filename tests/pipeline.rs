use gabriel::block::{Block, OutputRef, Transaction, TxIn, TxOut};
use gabriel::checkpoint::BlockAggregateOutput;
use gabriel::error::PipelineError;
use gabriel::pipeline::PipelineState;
use gabriel::scan::{scan_block, Tally};
use gabriel::store::{decode_amount, output_key_bytes, output_ref_key, DeltaStore};

fn temp_db() -> sled::Db {
    sled::Config::new().temporary(true).open().unwrap()
}

fn p2pk_script() -> Vec<u8> {
    let mut s = vec![0x21u8];
    s.extend(std::iter::repeat(0x02u8).take(33));
    s.push(0xac);
    s
}

fn p2pkh_script() -> Vec<u8> {
    let mut s = vec![0x76u8, 0xa9, 0x14];
    s.extend(std::iter::repeat(0x11u8).take(20));
    s.push(0x88);
    s.push(0xac);
    s
}

fn tx(txid: &str, spends: Vec<(&str, u32)>, outs: Vec<(u64, Vec<u8>)>) -> Transaction {
    Transaction {
        txid: txid.to_string(),
        input: spends
            .into_iter()
            .map(|(t, v)| TxIn { previous_output: OutputRef { txid: t.to_string(), vout: v } })
            .collect(),
        output: outs.into_iter().map(|(value, script_pubkey)| TxOut { value, script_pubkey }).collect(),
    }
}

fn block(hash: &str, time: u32, txdata: Vec<Transaction>) -> Block {
    Block { hash: hash.to_string(), time, txdata }
}

fn coinbase(txid: &str, value: u64, script: Vec<u8>) -> Transaction {
    tx(txid, vec![("0000", u32::MAX)], vec![(value, script)])
}

/// A chain of thirteen blocks: a tracked output of 5000 at height 10, spent
/// at height 12; the others hold only untracked outputs.
fn chain() -> Vec<(Block, u64)> {
    let mut blocks = Vec::new();
    for h in 0..13u64 {
        let mut txs = vec![coinbase(&format!("cb{}", h), 50, p2pkh_script())];
        if h == 10 {
            txs.push(tx("aa10", vec![("cb1", 0)], vec![(5000, p2pk_script()), (7, p2pkh_script())]));
        }
        if h == 12 {
            txs.push(tx("bb12", vec![("aa10", 0)], vec![(4990, p2pkh_script())]));
        }
        blocks.push((block(&format!("hash{}", h), 1_231_006_505 + h as u32 * 600, txs), h));
    }
    blocks
}

fn run(state: &mut PipelineState, store: &mut DeltaStore, blocks: &[(Block, u64)]) -> Vec<BlockAggregateOutput> {
    blocks.iter().map(|(b, h)| state.process_block(store, b, *h).unwrap()).collect()
}

fn same_rows(a: &[BlockAggregateOutput], b: &[BlockAggregateOutput]) -> bool {
    a.len() == b.len()
        && a.iter().zip(b.iter()).all(|(x, y)| {
            x.date == y.date
                && x.block_height == y.block_height
                && x.block_hash_big_endian == y.block_hash_big_endian
                && x.total_utxos == y.total_utxos
                && x.total_sats == y.total_sats
        })
}

#[test]
fn empty_chain_has_zero_totals() {
    let db = temp_db();
    let mut store = DeltaStore::new(db.clone());
    let mut state = PipelineState::new();
    let blocks: Vec<(Block, u64)> = (0..5u64)
        .map(|h| (block(&format!("h{}", h), 1000, vec![coinbase(&format!("c{}", h), 50, p2pkh_script())]), h))
        .collect();
    let rows = run(&mut state, &mut store, &blocks);
    assert_eq!(rows.len(), 5);
    for r in &rows {
        assert_eq!(r.total_utxos, 0);
        assert_eq!(r.total_sats, 0);
    }
    assert_eq!(db.len(), 0);
}

#[test]
fn tracked_output_at_height_ten() {
    let db = temp_db();
    let mut store = DeltaStore::new(db.clone());
    let mut state = PipelineState::new();
    let rows = run(&mut state, &mut store, &chain()[..11]);
    let at_ten = &rows[10];
    assert_eq!(at_ten.block_height, 10);
    assert_eq!(at_ten.total_utxos, 1);
    assert_eq!(at_ten.total_sats, 5000);
    assert_eq!(at_ten.block_hash_big_endian, "hash10");
    assert_eq!(rows[9].total_utxos, 0);
    assert_eq!(db.len(), 1);
    assert!(db.contains_key(b"aa10:0").unwrap());
}

#[test]
fn spend_at_height_twelve_clears_totals() {
    let db = temp_db();
    let mut store = DeltaStore::new(db.clone());
    let mut state = PipelineState::new();
    let rows = run(&mut state, &mut store, &chain());
    assert_eq!(rows[11].total_utxos, 1);
    assert_eq!(rows[11].total_sats, 5000);
    assert_eq!(rows[12].block_height, 12);
    assert_eq!(rows[12].total_utxos, 0);
    assert_eq!(rows[12].total_sats, 0);
    let key = output_ref_key(&OutputRef { txid: "aa10".to_string(), vout: 0 });
    assert!(!db.contains_key(&key).unwrap());
    assert_eq!(db.len(), 0);
}

#[test]
fn resume_after_height_twelve() {
    let db = temp_db();
    let mut store = DeltaStore::new(db);
    let mut state = PipelineState::new();
    let rows = run(&mut state, &mut store, &chain());
    let plan = PipelineState::resume(rows.last()).unwrap();
    assert_eq!(plan, PipelineState { next_height: 13, running_count: 0, running_value: 0 });
    assert_eq!(plan, state);
}

#[test]
fn resume_without_checkpoint_starts_at_genesis() {
    let plan = PipelineState::resume(None).unwrap();
    assert_eq!(plan, PipelineState { next_height: 0, running_count: 0, running_value: 0 });
}

#[test]
fn resume_at_largest_height_fails() {
    let last = BlockAggregateOutput {
        date: String::new(),
        block_height: u64::MAX,
        block_hash_big_endian: "h".to_string(),
        total_utxos: 3,
        total_sats: 9,
    };
    assert!(matches!(PipelineState::resume(Some(&last)), Err(PipelineError::HeightOverflow)));
}

#[test]
fn resumed_run_matches_cold_run() {
    let blocks = chain();
    let mut cold_state = PipelineState::new();
    let mut cold_store = DeltaStore::new(temp_db());
    let cold = run(&mut cold_state, &mut cold_store, &blocks);

    for k in [0usize, 1, 10, 11, 12, 13] {
        let db = temp_db();
        let mut store = DeltaStore::new(db.clone());
        let mut state = PipelineState::new();
        let mut rows = run(&mut state, &mut store, &blocks[..k]);
        let mut resumed = PipelineState::resume(rows.last()).unwrap();
        let mut store_again = DeltaStore::new(db);
        rows.extend(run(&mut resumed, &mut store_again, &blocks[k..]));
        assert!(same_rows(&cold, &rows));
        assert_eq!(resumed, cold_state);
    }
}

#[test]
fn tally_is_created_less_spent() {
    let db = temp_db();
    let mut store = DeltaStore::new(db.clone());
    let mut state = PipelineState::new();
    let blocks = vec![
        (block("b0", 0, vec![tx("t0", vec![], vec![(10, p2pk_script()), (20, p2pk_script()), (30, p2pkh_script())])]), 0u64),
        (block("b1", 0, vec![tx("t1", vec![("t0", 1), ("t0", 2)], vec![(40, p2pk_script())])]), 1),
        (block("b2", 0, vec![tx("t2", vec![("t1", 0), ("zz", 9)], vec![(5, p2pk_script())])]), 2),
    ];
    let rows = run(&mut state, &mut store, &blocks);
    // created: 10, 20, 40, 5; spent: 20, 40
    assert_eq!((rows[0].total_utxos, rows[0].total_sats), (2, 30));
    assert_eq!((rows[1].total_utxos, rows[1].total_sats), (2, 50));
    assert_eq!((rows[2].total_utxos, rows[2].total_sats), (2, 15));
    assert_eq!(db.len() as i64, state.running_count);
}

#[test]
fn output_created_and_spent_in_same_block() {
    let db = temp_db();
    let mut store = DeltaStore::new(db.clone());
    let b = block("b", 0, vec![
        tx("a", vec![], vec![(700, p2pk_script())]),
        tx("b", vec![("a", 0)], vec![(1, p2pkh_script())]),
    ]);
    let t = scan_block(&mut store, &b, Tally { count: 0, value: 0 }).unwrap();
    assert_eq!(t, Tally { count: 0, value: 0 });
    assert_eq!(db.len(), 0);
}

#[test]
fn spend_of_untracked_output_has_no_effect() {
    let db = temp_db();
    let mut store = DeltaStore::new(db.clone());
    let b = block("b", 0, vec![tx("a", vec![("elsewhere", 3)], vec![(9, p2pkh_script())])]);
    let t = scan_block(&mut store, &b, Tally { count: 4, value: 400 }).unwrap();
    assert_eq!(t, Tally { count: 4, value: 400 });
}

#[test]
fn uncompressed_key_output_is_tracked() {
    let mut script = vec![0x41u8];
    script.extend(std::iter::repeat(0x04u8).take(65));
    script.push(0xac);
    let o = TxOut { value: 1, script_pubkey: script };
    assert!(o.is_tracked());
    assert!(TxOut { value: 1, script_pubkey: p2pk_script() }.is_tracked());
    assert!(!TxOut { value: 1, script_pubkey: p2pkh_script() }.is_tracked());
    assert!(!TxOut { value: 1, script_pubkey: vec![] }.is_tracked());
}

#[test]
fn store_keys_and_values_use_the_documented_layout() {
    let db = temp_db();
    let mut store = DeltaStore::new(db.clone());
    let b = block("b", 0, vec![tx("f00d", vec![], vec![(1, p2pkh_script()), (0x0102, p2pk_script())])]);
    scan_block(&mut store, &b, Tally { count: 0, value: 0 }).unwrap();
    let stored = db.get(b"f00d:1").unwrap().unwrap();
    assert_eq!(stored.as_ref(), &[0x02u8, 0x01, 0, 0, 0, 0, 0, 0][..]);
    assert_eq!(output_key_bytes(&"ab".to_string(), 1234), b"ab:1234".to_vec());
    assert_eq!(output_ref_key(&OutputRef { txid: "x".to_string(), vout: 0 }), b"x:0".to_vec());
}

#[test]
fn malformed_stored_value_is_reported() {
    let db = temp_db();
    db.insert(b"a:0", vec![1u8, 2, 3]).unwrap();
    let mut store = DeltaStore::new(db);
    let b = block("b", 0, vec![tx("c", vec![("a", 0)], vec![])]);
    let r = scan_block(&mut store, &b, Tally { count: 1, value: 1 });
    assert!(matches!(r, Err(PipelineError::MalformedValue)));
}

#[test]
fn tally_overflow_is_reported() {
    let mut store = DeltaStore::new(temp_db());
    let b = block("b", 0, vec![tx("a", vec![], vec![(1, p2pk_script())])]);
    let r = scan_block(&mut store, &b, Tally { count: i64::MAX, value: 0 });
    assert!(matches!(r, Err(PipelineError::TallyOverflow)));
    let mut store = DeltaStore::new(temp_db());
    let b = block("b", 0, vec![tx("a", vec![], vec![(u64::MAX, p2pk_script())])]);
    let r = scan_block(&mut store, &b, Tally { count: 0, value: 0 });
    assert!(matches!(r, Err(PipelineError::TallyOverflow)));
}

#[test]
fn heights_must_increase() {
    let mut store = DeltaStore::new(temp_db());
    let mut state = PipelineState::new();
    let b = block("b", 0, vec![]);
    state.process_block(&mut store, &b, 5).unwrap();
    assert_eq!(state.next_height, 6);
    let before = state;
    match state.process_block(&mut store, &b, 5) {
        Err(PipelineError::OutOfOrder { expected, received }) => {
            assert_eq!(expected, 6);
            assert_eq!(received, 5);
        }
        other => panic!("unexpected result {:?}", other.map(|c| c.block_height)),
    }
    assert_eq!(state, before);
    let later = state.process_block(&mut store, &b, 9).unwrap();
    assert_eq!(later.block_height, 9);
    assert!(matches!(state.process_block(&mut store, &b, u64::MAX), Err(PipelineError::HeightOverflow)));
}

#[test]
fn checkpoint_date_is_the_block_time_in_utc() {
    let mut store = DeltaStore::new(temp_db());
    let mut state = PipelineState::new();
    let b = block("genesis", 1_231_006_505, vec![]);
    let cp = state.process_block(&mut store, &b, 0).unwrap();
    assert_eq!(cp.date, "2009-01-03 18:15:05 UTC");
    assert_eq!(cp.block_hash_big_endian, "genesis");
}

#[test]
fn apply_block_takes_the_given_date() {
    let mut store = DeltaStore::new(temp_db());
    let mut state = PipelineState { next_height: 3, running_count: 2, running_value: 70 };
    let b = block("h", 0, vec![tx("n", vec![], vec![(30, p2pk_script())])]);
    let cp = state.apply_block(&mut store, &b, 4, "some day".to_string()).unwrap();
    assert_eq!(cp.date, "some day");
    assert_eq!((cp.block_height, cp.total_utxos, cp.total_sats), (4, 3, 100));
    assert_eq!(state, PipelineState { next_height: 5, running_count: 3, running_value: 100 });
}

#[test]
fn decode_amount_reads_eight_little_endian_bytes() {
    assert_eq!(decode_amount(&5000u64.to_le_bytes().to_vec()), Some(5000));
    assert_eq!(decode_amount(&vec![0xffu8; 8]), Some(u64::MAX));
    assert_eq!(decode_amount(&vec![1u8, 2, 3]), None);
    assert_eq!(decode_amount(&vec![0u8; 9]), None);
}

#[test]
fn block_without_store_work_always_succeeds() {
    let mut store = DeltaStore::new(temp_db());
    let mut state = PipelineState { next_height: 2, running_count: 7, running_value: 9 };
    let b = block("quiet", 0, vec![tx("q", vec![], vec![(3, p2pkh_script())]), tx("r", vec![], vec![])]);
    let cp = state.process_block(&mut store, &b, 2).unwrap();
    assert_eq!((cp.block_height, cp.total_utxos, cp.total_sats), (2, 7, 9));
}
