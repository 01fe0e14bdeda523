use vstd::prelude::*;

use crate::block::{is_p2pk_script, Block, Transaction};
use crate::checkpoint::{utc_date_text, CheckpointRow};
use crate::fetch::{advance, fetch_step, FetchAction, FetchCoordinator, FetchEvent};
use crate::pipeline::{genesis_state, resume_model, step_model, PipelineState};
use crate::scan::{in_i64, scan_block_model, scan_inputs, scan_outputs, scan_start, scan_txs, ScanState};

verus! {

/// Whether an event is the acknowledgment of the block in flight.
pub open spec fn accepts_ack(s: FetchCoordinator, ev: FetchEvent) -> bool {
    &&& s.phase is AwaitingAck
    &&& ev matches FetchEvent::Acknowledged { height }
    &&& s.in_flight == Some(height)
}

/// The fetch role run over a sequence of events: its final state, how many
/// blocks it requested and how many acknowledgments it accepted.
pub open spec fn fetch_run(s: FetchCoordinator, evs: Seq<FetchEvent>) -> (FetchCoordinator, nat, nat)
    decreases evs.len(),
{
    if evs.len() == 0 {
        (s, 0, 0)
    } else {
        let (p, requested, acked) = fetch_run(s, evs.drop_last());
        let (q, a) = fetch_step(p, evs.last());
        (
            q,
            if a is RequestBlock { requested + 1 } else { requested },
            if accepts_ack(p, evs.last()) { acked + 1 } else { acked },
        )
    }
}

/// At any instant at most one block is between request and acknowledgment:
/// over any sequence of events from a well-formed state with nothing in
/// flight, the blocks requested exceed the acknowledgments accepted by
/// exactly one while a block is in flight, and by none otherwise.
pub proof fn lemma_at_most_one_block_in_flight(s: FetchCoordinator, evs: Seq<FetchEvent>)
    requires
        s.wf(),
        s.in_flight is None,
    ensures
        fetch_run(s, evs).0.wf(),
        fetch_run(s, evs).1 == fetch_run(s, evs).2 + if fetch_run(s, evs).0.in_flight is Some { 1nat } else { 0nat },
        fetch_run(s, evs).1 <= fetch_run(s, evs).2 + 1,
    decreases evs.len(),
{
    if evs.len() > 0 {
        lemma_at_most_one_block_in_flight(s, evs.drop_last());
    }
}

/// The heights whose headers the fetch role asks for, in order, over a
/// sequence of events.
pub open spec fn fetch_lookups(s: FetchCoordinator, evs: Seq<FetchEvent>) -> Seq<u64>
    decreases evs.len(),
{
    if evs.len() == 0 {
        seq![]
    } else {
        let prev = fetch_lookups(s, evs.drop_last());
        let p = fetch_run(s, evs.drop_last()).0;
        match fetch_step(p, evs.last()).1 {
            FetchAction::LookUpHeader { height } => prev.push(height),
            _ => prev,
        }
    }
}

/// The lookups so far, as seen from the state `s`: strictly increasing, all
/// at or above `low` and at or below the next height, and below it unless a
/// lookup of the next height is what the state waits on; a block in flight
/// is the one at the next height.
pub open spec fn lookups_ordered(s: FetchCoordinator, lookups: Seq<u64>, low: u64) -> bool {
    &&& forall|i: int, j: int| 0 <= i < j < lookups.len() ==> #[trigger] lookups[i] < #[trigger] lookups[j]
    &&& forall|i: int| 0 <= i < lookups.len() ==> low <= #[trigger] lookups[i] <= s.next_height
    &&& s.phase is RefreshingTip ==> forall|i: int| 0 <= i < lookups.len() ==> #[trigger] lookups[i] < s.next_height
    &&& s.phase is AwaitingAck ==> s.in_flight == Some(s.next_height)
    &&& low <= s.next_height
}

proof fn lemma_lookups_ordered(s: FetchCoordinator, first: Seq<u64>, low: u64, evs: Seq<FetchEvent>)
    requires
        lookups_ordered(s, first, low),
    ensures
        lookups_ordered(fetch_run(s, evs).0, first + fetch_lookups(s, evs), low),
    decreases evs.len(),
{
    if evs.len() == 0 {
        assert(first + seq![] =~= first);
    } else {
        lemma_lookups_ordered(s, first, low, evs.drop_last());
        let prev = fetch_lookups(s, evs.drop_last());
        if let FetchAction::LookUpHeader { height } = fetch_step(fetch_run(s, evs.drop_last()).0, evs.last()).1 {
            assert(first + prev.push(height) =~= (first + prev).push(height));
        }
    }
}

/// Header lookups go up: from the start at a resume height, the heights
/// whose headers the fetch role asks for, the first lookup included, are
/// strictly increasing and none is below the resume height.
pub proof fn lemma_header_lookups_increase(resume_height: u64, tip: u64, evs: Seq<FetchEvent>)
    ensures
        ({
            let (s0, a0) = advance(resume_height, tip, None);
            let first: Seq<u64> = if a0 is LookUpHeader { seq![resume_height] } else { seq![] };
            let lookups = first + fetch_lookups(s0, evs);
            &&& forall|i: int, j: int| 0 <= i < j < lookups.len() ==> #[trigger] lookups[i] < #[trigger] lookups[j]
            &&& forall|i: int| 0 <= i < lookups.len() ==> resume_height <= #[trigger] lookups[i]
        }),
{
    let (s0, a0) = advance(resume_height, tip, None);
    let first: Seq<u64> = if a0 is LookUpHeader { seq![resume_height] } else { seq![] };
    lemma_lookups_ordered(s0, first, resume_height, evs);
}

/// The process role run over a sequence of delivered blocks with their
/// heights: its final state, the delta store's final contents, the
/// checkpoints in write order, how many stored outputs were spent and for
/// how much, and how many creations overwrote an open entry.
pub struct RunResult {
    pub state: PipelineState,
    pub entries: Map<Seq<u8>, Seq<u8>>,
    pub rows: Seq<CheckpointRow>,
    pub spent_count: int,
    pub spent_value: int,
    pub reopened: int,
}

/// The scan that processing a block performs, where the block is accepted.
pub open spec fn step_scan(p: PipelineState, entries: Map<Seq<u8>, Seq<u8>>, block: Block, height: u64) -> Option<ScanState> {
    if height < p.next_height || height == u64::MAX {
        None
    } else {
        scan_block_model(scan_start(entries, p.tally()), block)
    }
}

pub open spec fn run_model(p: PipelineState, entries: Map<Seq<u8>, Seq<u8>>, blocks: Seq<(Block, u64)>) -> Option<RunResult>
    decreases blocks.len(),
{
    if blocks.len() == 0 {
        Some(RunResult { state: p, entries, rows: seq![], spent_count: 0, spent_value: 0, reopened: 0 })
    } else {
        match run_model(p, entries, blocks.drop_last()) {
            None => None,
            Some(r) => {
                let (b, h) = blocks.last();
                match (step_model(r.state, r.entries, b, h, utc_date_text(b.time)), step_scan(r.state, r.entries, b, h)) {
                    (Some((q, e, row)), Some(s)) => Some(
                        RunResult {
                            state: q,
                            entries: e,
                            rows: r.rows.push(row),
                            spent_count: r.spent_count + s.spent_count,
                            spent_value: r.spent_value + s.spent_value,
                            reopened: r.reopened + s.reopened,
                        },
                    ),
                    _ => None,
                }
            },
        }
    }
}

/// Checkpoints, read in write order, have strictly increasing heights, all
/// at or above the height the run started at and below the next height
/// expected after it.
pub proof fn lemma_checkpoint_heights_increase(p: PipelineState, entries: Map<Seq<u8>, Seq<u8>>, blocks: Seq<(Block, u64)>)
    requires
        run_model(p, entries, blocks) is Some,
    ensures
        ({
            let r = run_model(p, entries, blocks)->0;
            &&& forall|i: int, j: int| 0 <= i < j < r.rows.len() ==> #[trigger] r.rows[i].height < #[trigger] r.rows[j].height
            &&& forall|i: int| 0 <= i < r.rows.len() ==> p.next_height <= #[trigger] r.rows[i].height < r.state.next_height
            &&& p.next_height <= r.state.next_height
        }),
    decreases blocks.len(),
{
    if blocks.len() > 0 {
        lemma_checkpoint_heights_increase(p, entries, blocks.drop_last());
    }
}

/// The most recent checkpoint of a sequence written in order, if any.
pub open spec fn last_row(rows: Seq<CheckpointRow>) -> Option<CheckpointRow> {
    if rows.len() == 0 {
        None
    } else {
        Some(rows.last())
    }
}

proof fn lemma_run_split(p: PipelineState, entries: Map<Seq<u8>, Seq<u8>>, a: Seq<(Block, u64)>, b: Seq<(Block, u64)>)
    ensures
        run_model(p, entries, a + b) == match run_model(p, entries, a) {
            None => None,
            Some(r1) => match run_model(r1.state, r1.entries, b) {
                None => None,
                Some(r2) => Some(
                    RunResult {
                        state: r2.state,
                        entries: r2.entries,
                        rows: r1.rows + r2.rows,
                        spent_count: r1.spent_count + r2.spent_count,
                        spent_value: r1.spent_value + r2.spent_value,
                        reopened: r1.reopened + r2.reopened,
                    },
                ),
            },
        },
    decreases b.len(),
{
    if b.len() == 0 {
        assert(a + b =~= a);
        if let Some(r1) = run_model(p, entries, a) {
            assert(r1.rows + seq![] =~= r1.rows);
        }
    } else {
        assert((a + b).drop_last() =~= a + b.drop_last());
        assert((a + b).last() == b.last());
        lemma_run_split(p, entries, a, b.drop_last());
        if let Some(r1) = run_model(p, entries, a) {
            if let Some(r2) = run_model(r1.state, r1.entries, b.drop_last()) {
                let (blk, h) = b.last();
                if let Some((q, e, row)) = step_model(r2.state, r2.entries, blk, h, utc_date_text(blk.time)) {
                    assert(r1.rows + r2.rows.push(row) =~= (r1.rows + r2.rows).push(row));
                }
            }
        }
    }
}

/// Resuming is idempotent: a run from a cold start that is interrupted after
/// any number of blocks, and resumed from the state that the resume planner
/// derives from its last checkpoint with the delta store as it was left,
/// writes the same checkpoints, and ends in the same state and store, as a
/// run over the whole sequence without interruption.
pub proof fn lemma_resume_is_idempotent(entries: Map<Seq<u8>, Seq<u8>>, blocks: Seq<(Block, u64)>, k: int)
    requires
        0 <= k <= blocks.len(),
        run_model(genesis_state(), entries, blocks.take(k)) is Some,
    ensures
        ({
            let first = run_model(genesis_state(), entries, blocks.take(k))->0;
            &&& resume_model(last_row(first.rows)) == Some(first.state)
            &&& match (
                run_model(genesis_state(), entries, blocks),
                run_model(resume_model(last_row(first.rows))->0, first.entries, blocks.skip(k)),
            ) {
                (Some(cold), Some(rest)) => cold.rows == first.rows + rest.rows
                    && cold.state == rest.state && cold.entries == rest.entries,
                (None, None) => true,
                _ => false,
            }
        }),
{
    let a = blocks.take(k);
    assert(a + blocks.skip(k) =~= blocks);
    lemma_run_split(genesis_state(), entries, a, blocks.skip(k));
}

/// The tracked outputs among the first `n` outputs of a transaction: how
/// many, and their total amount.
pub open spec fn created_in_outputs(tx: Transaction, n: int) -> (int, int)
    decreases n,
{
    if n <= 0 {
        (0, 0)
    } else {
        let prev = created_in_outputs(tx, n - 1);
        let o = tx.output@[n - 1];
        if is_p2pk_script(o.script_pubkey@) {
            (prev.0 + 1, prev.1 + o.value)
        } else {
            prev
        }
    }
}

/// The tracked outputs created by the first `n` transactions of a sequence.
pub open spec fn created_in_txs(txs: Seq<Transaction>, n: int) -> (int, int)
    decreases n,
{
    if n <= 0 {
        (0, 0)
    } else {
        let prev = created_in_txs(txs, n - 1);
        let here = created_in_outputs(txs[n - 1], txs[n - 1].output@.len() as int);
        (prev.0 + here.0, prev.1 + here.1)
    }
}

/// The tracked outputs created by a sequence of blocks.
pub open spec fn created_in_blocks(blocks: Seq<(Block, u64)>) -> (int, int)
    decreases blocks.len(),
{
    if blocks.len() == 0 {
        (0, 0)
    } else {
        let prev = created_in_blocks(blocks.drop_last());
        let b = blocks.last().0;
        let here = created_in_txs(b.txdata@, b.txdata@.len() as int);
        (prev.0 + here.0, prev.1 + here.1)
    }
}

/// What a scan from `s0` to `s` that created `created` tracked outputs keeps
/// of the books: totals in range, totals moved by the created outputs less
/// the spent ones, and the number of stored entries moved with the count
/// except where a creation overwrote an open entry.
pub open spec fn scan_accounts(s0: ScanState, s: ScanState, created: (int, int)) -> bool {
    &&& in_i64(s.count) && in_i64(s.value)
    &&& s.count == s0.count + created.0 - (s.spent_count - s0.spent_count)
    &&& s.value == s0.value + created.1 - (s.spent_value - s0.spent_value)
    &&& s0.entries.dom().finite() ==> s.entries.dom().finite()
        && s.entries.len() + s.reopened - s.count == s0.entries.len() + s0.reopened - s0.count
}

proof fn lemma_outputs_account(s0: ScanState, tx: Transaction, n: int)
    requires
        in_i64(s0.count) && in_i64(s0.value),
        scan_outputs(s0, tx, n) is Some,
    ensures
        scan_accounts(s0, scan_outputs(s0, tx, n)->0, created_in_outputs(tx, n)),
    decreases n,
{
    if n > 0 {
        lemma_outputs_account(s0, tx, n - 1);
    }
}

proof fn lemma_inputs_account(s0: ScanState, tx: Transaction, n: int)
    requires
        in_i64(s0.count) && in_i64(s0.value),
        scan_inputs(s0, tx, n) is Some,
    ensures
        scan_accounts(s0, scan_inputs(s0, tx, n)->0, (0, 0)),
    decreases n,
{
    if n > 0 {
        lemma_inputs_account(s0, tx, n - 1);
    }
}

proof fn lemma_txs_account(s0: ScanState, txs: Seq<Transaction>, n: int)
    requires
        in_i64(s0.count) && in_i64(s0.value),
        scan_txs(s0, txs, n) is Some,
    ensures
        scan_accounts(s0, scan_txs(s0, txs, n)->0, created_in_txs(txs, n)),
    decreases n,
{
    if n > 0 {
        lemma_txs_account(s0, txs, n - 1);
        let p = scan_txs(s0, txs, n - 1)->0;
        let tx = txs[n - 1];
        lemma_outputs_account(p, tx, tx.output@.len() as int);
        let q = scan_outputs(p, tx, tx.output@.len() as int)->0;
        lemma_inputs_account(q, tx, tx.input@.len() as int);
    }
}

/// Tallies are correct: after any sequence of blocks, the running count is
/// the count at the start plus the tracked outputs the blocks created less
/// the stored outputs they spent, and the running value likewise with
/// amounts.
pub proof fn lemma_tally_is_created_less_spent(p: PipelineState, entries: Map<Seq<u8>, Seq<u8>>, blocks: Seq<(Block, u64)>)
    requires
        run_model(p, entries, blocks) is Some,
    ensures
        ({
            let r = run_model(p, entries, blocks)->0;
            &&& r.state.running_count == p.running_count + created_in_blocks(blocks).0 - r.spent_count
            &&& r.state.running_value == p.running_value + created_in_blocks(blocks).1 - r.spent_value
        }),
    decreases blocks.len(),
{
    if blocks.len() > 0 {
        lemma_tally_is_created_less_spent(p, entries, blocks.drop_last());
        let r = run_model(p, entries, blocks.drop_last())->0;
        let (b, h) = blocks.last();
        let s0 = scan_start(r.entries, r.state.tally());
        lemma_txs_account(s0, b.txdata@, b.txdata@.len() as int);
    }
}

/// The delta store and the checkpoints agree: where the store held as many
/// entries as the running count at the start, it holds as many entries as
/// the running count after any sequence of blocks, less the creations that
/// overwrote an entry still open (which a valid chain has only where an
/// output reference repeats).
pub proof fn lemma_store_size_is_count(p: PipelineState, entries: Map<Seq<u8>, Seq<u8>>, blocks: Seq<(Block, u64)>)
    requires
        run_model(p, entries, blocks) is Some,
        entries.dom().finite(),
        entries.len() == p.running_count,
    ensures
        ({
            let r = run_model(p, entries, blocks)->0;
            &&& r.entries.dom().finite()
            &&& r.entries.len() + r.reopened == r.state.running_count
            &&& r.reopened == 0 ==> r.entries.len() == r.state.running_count
        }),
    decreases blocks.len(),
{
    if blocks.len() > 0 {
        lemma_store_size_is_count(p, entries, blocks.drop_last());
        let r = run_model(p, entries, blocks.drop_last())->0;
        let (b, h) = blocks.last();
        let s0 = scan_start(r.entries, r.state.tally());
        lemma_txs_account(s0, b.txdata@, b.txdata@.len() as int);
    }
}

} // verus!
