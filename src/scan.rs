use vstd::prelude::*;

use crate::block::{is_p2pk_script, Block, Transaction};
use crate::error::PipelineError;
use crate::store::{amount_bytes, output_key, output_key_bytes, output_ref_key, stored_amount, DeltaStore, StoreError};

verus! {

/// Running totals of the unspent tracked outputs.
#[derive(Clone, Copy, Debug, PartialEq, Eq, Structural)]
pub struct Tally {
    pub count: i64,
    pub value: i64,
}

/// The state of a scan in the model: the delta store's contents, the running
/// totals, how many stored outputs were spent and for how much, and how many
/// times a tracked output was created under a key that was still open (which
/// overwrites the stored entry).
pub struct ScanState {
    pub entries: Map<Seq<u8>, Seq<u8>>,
    pub count: int,
    pub value: int,
    pub spent_count: nat,
    pub spent_value: int,
    pub reopened: nat,
}

pub open spec fn in_i64(x: int) -> bool {
    i64::MIN <= x <= i64::MAX
}

/// The scan state that a store and a tally stand for.
pub open spec fn scan_start(entries: Map<Seq<u8>, Seq<u8>>, t: Tally) -> ScanState {
    ScanState { entries, count: t.count as int, value: t.value as int, spent_count: 0, spent_value: 0, reopened: 0 }
}

/// A tracked output is created: it is stored and counted. `None` where a
/// running total leaves the range of `i64`.
pub open spec fn create_step(s: ScanState, key: Seq<u8>, value: u64) -> Option<ScanState> {
    let count = s.count + 1;
    let total = s.value + value;
    if in_i64(count) && in_i64(total) {
        Some(
            ScanState {
                entries: s.entries.insert(key, amount_bytes(value)),
                count,
                value: total,
                spent_count: s.spent_count,
                spent_value: s.spent_value,
                reopened: if s.entries.contains_key(key) { s.reopened + 1 } else { s.reopened },
            },
        )
    } else {
        None
    }
}

/// An input spends the output stored under `key`: if it is stored, it is
/// removed and its amount subtracted; if not, nothing changes. `None` where
/// the stored value is malformed or a running total leaves the range of `i64`.
pub open spec fn spend_step(s: ScanState, key: Seq<u8>) -> Option<ScanState> {
    if !s.entries.contains_key(key) {
        Some(s)
    } else if s.entries[key].len() != 8 {
        None
    } else {
        let amount = stored_amount(s.entries[key]);
        let count = s.count - 1;
        let total = s.value - amount;
        if in_i64(count) && in_i64(total) {
            Some(
                ScanState {
                    entries: s.entries.remove(key),
                    count,
                    value: total,
                    spent_count: s.spent_count + 1,
                    spent_value: s.spent_value + amount,
                    reopened: s.reopened,
                },
            )
        } else {
            None
        }
    }
}

/// The first `n` outputs of a transaction, scanned in order.
pub open spec fn scan_outputs(s: ScanState, tx: Transaction, n: int) -> Option<ScanState>
    decreases n,
{
    if n <= 0 {
        Some(s)
    } else {
        match scan_outputs(s, tx, n - 1) {
            None => None,
            Some(p) => {
                let o = tx.output@[n - 1];
                if is_p2pk_script(o.script_pubkey@) {
                    create_step(p, output_key(tx.txid@, (n - 1) as nat), o.value)
                } else {
                    Some(p)
                }
            },
        }
    }
}

/// The first `n` inputs of a transaction, scanned in order.
pub open spec fn scan_inputs(s: ScanState, tx: Transaction, n: int) -> Option<ScanState>
    decreases n,
{
    if n <= 0 {
        Some(s)
    } else {
        match scan_inputs(s, tx, n - 1) {
            None => None,
            Some(p) => {
                let prev = tx.input@[n - 1].previous_output;
                spend_step(p, output_key(prev.txid@, prev.vout as nat))
            },
        }
    }
}

/// A transaction: its outputs first, then its inputs.
pub open spec fn scan_tx(s: ScanState, tx: Transaction) -> Option<ScanState> {
    match scan_outputs(s, tx, tx.output@.len() as int) {
        None => None,
        Some(p) => scan_inputs(p, tx, tx.input@.len() as int),
    }
}

/// The first `n` transactions of a sequence, scanned in order.
pub open spec fn scan_txs(s: ScanState, txs: Seq<Transaction>, n: int) -> Option<ScanState>
    decreases n,
{
    if n <= 0 {
        Some(s)
    } else {
        match scan_txs(s, txs, n - 1) {
            None => None,
            Some(p) => scan_tx(p, txs[n - 1]),
        }
    }
}

/// A whole block, transactions in block order.
pub open spec fn scan_block_model(s: ScanState, b: Block) -> Option<ScanState> {
    scan_txs(s, b.txdata@, b.txdata@.len() as int)
}

/// A transaction that neither spends anything nor creates a tracked output.
pub open spec fn tx_touches_no_store(tx: Transaction) -> bool {
    &&& tx.input@.len() == 0
    &&& forall|j: int| 0 <= j < tx.output@.len() ==> !is_p2pk_script(#[trigger] tx.output@[j].script_pubkey@)
}

/// A block whose scan makes no call on the delta store: none of its
/// transactions spends anything or creates a tracked output.
pub open spec fn touches_no_store(b: Block) -> bool {
    forall|i: int| 0 <= i < b.txdata@.len() ==> tx_touches_no_store(#[trigger] b.txdata@[i])
}

/// Whether a scan failure is one that the model predicts (as opposed to a
/// fault of the storage engine).
pub open spec fn is_model_failure(e: PipelineError) -> bool {
    e is MalformedValue || e is TallyOverflow
}

/// The model state that a delta store and a tally stand for, up to the
/// count of overwritten entries.
pub open spec fn matches_state(s: ScanState, entries: Map<Seq<u8>, Seq<u8>>, t: Tally) -> bool {
    s.entries == entries && s.count == t.count as int && s.value == t.value as int
}

fn scan_outputs_exec(store: &mut DeltaStore, tx: &Transaction, tally: Tally, Ghost(s0): Ghost<ScanState>) -> (r: Result<(Tally, Ghost<ScanState>), PipelineError>)
    requires
        matches_state(s0, old(store).entries(), tally),
    ensures
        match r {
            Ok(p) => scan_outputs(s0, *tx, tx.output@.len() as int) == Some(p.1@)
                && matches_state(p.1@, final(store).entries(), p.0),
            Err(e) => e is Storage
                || (is_model_failure(e) && scan_outputs(s0, *tx, tx.output@.len() as int) is None),
        },
        (forall|j: int| 0 <= j < tx.output@.len() ==> !is_p2pk_script(#[trigger] tx.output@[j].script_pubkey@))
            ==> r is Ok,
{
    let mut t = tally;
    let ghost mut s = s0;
    let mut i: usize = 0;
    while i < tx.output.len()
        invariant
            i <= tx.output@.len(),
            scan_outputs(s0, *tx, i as int) == Some(s),
            matches_state(s, store.entries(), t),
        decreases tx.output@.len() - i,
    {
        let o = &tx.output[i];
        if o.is_tracked() {
            let count: i128 = t.count as i128 + 1;
            let value: i128 = t.value as i128 + o.value as i128;
            if count > i64::MAX as i128 || value > i64::MAX as i128 {
                proof {
                    lemma_scan_outputs_none_after(s0, *tx, i as int + 1, tx.output@.len() as int);
                }
                return Err(PipelineError::TallyOverflow);
            }
            let key = output_key_bytes(&tx.txid, i as u64);
            match store.insert_output(&key, o.value) {
                Ok(()) => {},
                Err(StoreError::Storage(e)) => return Err(PipelineError::Storage(e)),
                Err(StoreError::MalformedValue) => return Err(PipelineError::MalformedValue),
            }
            proof {
                s = create_step(s, key@, o.value).unwrap();
            }
            t = Tally { count: count as i64, value: value as i64 };
        }
        i = i + 1;
    }
    Ok((t, Ghost(s)))
}

fn scan_inputs_exec(store: &mut DeltaStore, tx: &Transaction, tally: Tally, Ghost(s0): Ghost<ScanState>) -> (r: Result<(Tally, Ghost<ScanState>), PipelineError>)
    requires
        matches_state(s0, old(store).entries(), tally),
    ensures
        match r {
            Ok(p) => scan_inputs(s0, *tx, tx.input@.len() as int) == Some(p.1@)
                && matches_state(p.1@, final(store).entries(), p.0),
            Err(e) => e is Storage
                || (is_model_failure(e) && scan_inputs(s0, *tx, tx.input@.len() as int) is None),
        },
        tx.input@.len() == 0 ==> r is Ok,
{
    let mut t = tally;
    let ghost mut s = s0;
    let mut i: usize = 0;
    while i < tx.input.len()
        invariant
            i <= tx.input@.len(),
            scan_inputs(s0, *tx, i as int) == Some(s),
            matches_state(s, store.entries(), t),
        decreases tx.input@.len() - i,
    {
        let key = output_ref_key(&tx.input[i].previous_output);
        match store.take_output(&key) {
            Ok(None) => {},
            Ok(Some(v)) => {
                let count: i128 = t.count as i128 - 1;
                let value: i128 = t.value as i128 - v as i128;
                if count < i64::MIN as i128 || value < i64::MIN as i128 {
                    proof {
                        lemma_scan_inputs_none_after(s0, *tx, i as int + 1, tx.input@.len() as int);
                    }
                    return Err(PipelineError::TallyOverflow);
                }
                proof {
                    s = spend_step(s, key@).unwrap();
                }
                t = Tally { count: count as i64, value: value as i64 };
            },
            Err(StoreError::Storage(e)) => return Err(PipelineError::Storage(e)),
            Err(StoreError::MalformedValue) => {
                proof {
                    lemma_scan_inputs_none_after(s0, *tx, i as int + 1, tx.input@.len() as int);
                }
                return Err(PipelineError::MalformedValue);
            },
        }
        i = i + 1;
    }
    Ok((t, Ghost(s)))
}

/// Scans one block against the delta store, in transaction order: each
/// transaction's tracked outputs are stored and counted, then each of its
/// inputs removes and subtracts the output it spends, if that output is stored.
/// On success the store and the returned tally are exactly what the model
/// gives; a failure that the model does not predict comes from the storage
/// engine, and then the store may hold part of the block's changes.
pub fn scan_block(store: &mut DeltaStore, block: &Block, tally: Tally) -> (r: Result<Tally, PipelineError>)
    ensures
        match r {
            Ok(t) => scan_block_model(scan_start(old(store).entries(), tally), *block) matches Some(s)
                && matches_state(s, final(store).entries(), t),
            Err(e) => e is Storage
                || (is_model_failure(e) && scan_block_model(scan_start(old(store).entries(), tally), *block) is None),
        },
        touches_no_store(*block) ==> r is Ok,
{
    let ghost s0 = scan_start(store.entries(), tally);
    let mut t = tally;
    let ghost mut s = s0;
    let mut i: usize = 0;
    while i < block.txdata.len()
        invariant
            i <= block.txdata@.len(),
            s0 == scan_start(old(store).entries(), tally),
            scan_txs(s0, block.txdata@, i as int) == Some(s),
            matches_state(s, store.entries(), t),
        decreases block.txdata@.len() - i,
    {
        let tx = &block.txdata[i];
        let after_outputs = scan_outputs_exec(store, tx, t, Ghost(s));
        match after_outputs {
            Ok(p) => {
                let (t1, Ghost(s1)) = p;
                match scan_inputs_exec(store, tx, t1, Ghost(s1)) {
                    Ok(q) => {
                        let (t2, Ghost(s2)) = q;
                        t = t2;
                        proof {
                            s = s2;
                        }
                    },
                    Err(e) => {
                        proof {
                            if is_model_failure(e) {
                                lemma_scan_txs_none_after(s0, block.txdata@, i as int + 1, block.txdata@.len() as int);
                            }
                        }
                        return Err(e);
                    },
                }
            },
            Err(e) => {
                proof {
                    if is_model_failure(e) {
                        lemma_scan_txs_none_after(s0, block.txdata@, i as int + 1, block.txdata@.len() as int);
                    }
                }
                return Err(e);
            },
        }
        i = i + 1;
    }
    Ok(t)
}

proof fn lemma_scan_txs_none_after(s0: ScanState, txs: Seq<Transaction>, i: int, n: int)
    requires
        0 < i <= n,
        scan_txs(s0, txs, i) is None,
    ensures
        scan_txs(s0, txs, n) is None,
    decreases n - i,
{
    if i < n {
        lemma_scan_txs_none_after(s0, txs, i, n - 1);
    }
}

proof fn lemma_scan_inputs_none_after(s0: ScanState, tx: Transaction, i: int, n: int)
    requires
        0 < i <= n,
        scan_inputs(s0, tx, i) is None,
    ensures
        scan_inputs(s0, tx, n) is None,
    decreases n - i,
{
    if i < n {
        lemma_scan_inputs_none_after(s0, tx, i, n - 1);
    }
}

proof fn lemma_scan_outputs_none_after(s0: ScanState, tx: Transaction, i: int, n: int)
    requires
        0 < i <= n,
        scan_outputs(s0, tx, i) is None,
    ensures
        scan_outputs(s0, tx, n) is None,
    decreases n - i,
{
    if i < n {
        lemma_scan_outputs_none_after(s0, tx, i, n - 1);
    }
}

} // verus!
