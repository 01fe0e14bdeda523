use vstd::prelude::*;

use crate::block::Block;
use crate::checkpoint::{format_block_time, utc_date_text, BlockAggregateOutput, CheckpointRow};
use crate::error::PipelineError;
use crate::scan::{is_model_failure, scan_block, touches_no_store, scan_block_model, scan_start, Tally};
use crate::store::DeltaStore;

verus! {

/// The in-memory state of the process role: the next height it accepts and
/// the running totals as of the last processed block.
#[derive(Clone, Copy, Debug, PartialEq, Eq, Structural)]
pub struct PipelineState {
    pub next_height: u64,
    pub running_count: i64,
    pub running_value: i64,
}

impl PipelineState {
    pub open spec fn tally(self) -> Tally {
        Tally { count: self.running_count, value: self.running_value }
    }
}

/// The state before any block: height zero and empty totals.
pub open spec fn genesis_state() -> PipelineState {
    PipelineState { next_height: 0, running_count: 0, running_value: 0 }
}

/// What processing one block does in the model, given the date text of its
/// time: the new state, the delta store's new contents and the checkpoint.
/// `None` where the block is refused or the scan fails.
pub open spec fn step_model(
    p: PipelineState,
    entries: Map<Seq<u8>, Seq<u8>>,
    block: Block,
    height: u64,
    date: Seq<char>,
) -> Option<(PipelineState, Map<Seq<u8>, Seq<u8>>, CheckpointRow)> {
    if height < p.next_height || height == u64::MAX {
        None
    } else {
        match scan_block_model(scan_start(entries, p.tally()), block) {
            None => None,
            Some(s) => Some(
                (
                    PipelineState {
                        next_height: (height + 1) as u64,
                        running_count: s.count as i64,
                        running_value: s.value as i64,
                    },
                    s.entries,
                    CheckpointRow { height: height as int, hash: block.hash@, date, count: s.count, value: s.value },
                ),
            ),
        }
    }
}

/// When processing a block fails, and what is left of the store: a block
/// below the next height is out of order, one at the largest height
/// overflows, and in both cases the store is untouched; otherwise the block
/// is accepted and the failure is the storage engine's, or one that the
/// model predicts.
pub open spec fn failure_explained(
    p: PipelineState,
    before: Map<Seq<u8>, Seq<u8>>,
    after: Map<Seq<u8>, Seq<u8>>,
    block: Block,
    height: u64,
    date: Seq<char>,
    e: PipelineError,
) -> bool {
    match e {
        PipelineError::OutOfOrder { expected, received } => expected == p.next_height && received == height
            && height < p.next_height && after == before,
        PipelineError::HeightOverflow => p.next_height <= height && height == u64::MAX && after == before,
        PipelineError::Storage(_) => p.next_height <= height < u64::MAX,
        _ => p.next_height <= height < u64::MAX && is_model_failure(e)
            && step_model(p, before, block, height, date) is None,
    }
}

/// The state that a resume from the last checkpoint, if any, starts in.
/// `None` where no height can follow the checkpoint's.
pub open spec fn resume_model(last: Option<CheckpointRow>) -> Option<PipelineState> {
    match last {
        None => Some(genesis_state()),
        Some(row) => if 0 <= row.height < u64::MAX {
            Some(
                PipelineState {
                    next_height: (row.height + 1) as u64,
                    running_count: row.count as i64,
                    running_value: row.value as i64,
                },
            )
        } else {
            None
        },
    }
}

/// The model row of a checkpoint, if any.
pub open spec fn row_of(last: Option<&BlockAggregateOutput>) -> Option<CheckpointRow> {
    match last {
        None => None,
        Some(c) => Some(c@),
    }
}

impl PipelineState {
    /// The state of a cold start: nothing processed yet.
    pub fn new() -> (r: PipelineState)
        ensures
            r == genesis_state(),
    {
        PipelineState { next_height: 0, running_count: 0, running_value: 0 }
    }

    /// Plans a resume from the checkpoint of greatest height, if there is
    /// one: no checkpoint gives height zero and empty totals; a checkpoint at
    /// height `h` gives height `h + 1` and the checkpoint's totals. The only
    /// failure is a checkpoint at the largest height, which nothing can follow.
    pub fn resume(last: Option<&BlockAggregateOutput>) -> (r: Result<PipelineState, PipelineError>)
        ensures
            match r {
                Ok(p) => resume_model(row_of(last)) == Some(p),
                Err(e) => e is HeightOverflow && resume_model(row_of(last)) is None,
            },
    {
        match last {
            None => Ok(PipelineState::new()),
            Some(c) => {
                if c.block_height == u64::MAX {
                    Err(PipelineError::HeightOverflow)
                } else {
                    Ok(
                        PipelineState {
                            next_height: c.block_height + 1,
                            running_count: c.total_utxos,
                            running_value: c.total_sats,
                        },
                    )
                }
            },
        }
    }

    /// Processes the block delivered at `height`, whose time renders as
    /// `date`: it must come at or above the next height expected; the block
    /// is scanned against the delta store, the totals advance, and the
    /// checkpoint of the block is returned. On any failure the state is left
    /// as it was; the store too, unless the storage engine failed mid-block.
    pub fn apply_block(&mut self, store: &mut DeltaStore, block: &Block, height: u64, date: String) -> (r: Result<BlockAggregateOutput, PipelineError>)
        ensures
            match r {
                Ok(cp) => step_model(*old(self), old(store).entries(), *block, height, date@)
                    == Some((*final(self), final(store).entries(), cp@)),
                Err(e) => *final(self) == *old(self)
                    && failure_explained(*old(self), old(store).entries(), final(store).entries(), *block, height, date@, e),
            },
            old(self).next_height <= height < u64::MAX && touches_no_store(*block) ==> r is Ok,
    {
        if height < self.next_height {
            return Err(PipelineError::OutOfOrder { expected: self.next_height, received: height });
        }
        if height == u64::MAX {
            return Err(PipelineError::HeightOverflow);
        }
        let t = scan_block(store, block, self.tally_exec())?;
        *self = PipelineState { next_height: height + 1, running_count: t.count, running_value: t.value };
        Ok(
            BlockAggregateOutput {
                date,
                block_height: height,
                block_hash_big_endian: block.hash.clone(),
                total_utxos: t.count,
                total_sats: t.value,
            },
        )
    }

    /// Processes the block delivered at `height`, as `apply_block` does, with
    /// the block's time rendered as its date.
    pub fn process_block(&mut self, store: &mut DeltaStore, block: &Block, height: u64) -> (r: Result<BlockAggregateOutput, PipelineError>)
        ensures
            match r {
                Ok(cp) => step_model(*old(self), old(store).entries(), *block, height, utc_date_text(block.time))
                    == Some((*final(self), final(store).entries(), cp@)),
                Err(e) => *final(self) == *old(self)
                    && failure_explained(*old(self), old(store).entries(), final(store).entries(), *block, height, utc_date_text(block.time), e),
            },
            old(self).next_height <= height < u64::MAX && touches_no_store(*block) ==> r is Ok,
    {
        let date = format_block_time(block.time);
        self.apply_block(store, block, height, date)
    }

    fn tally_exec(&self) -> (t: Tally)
        ensures
            t == self.tally(),
    {
        Tally { count: self.running_count, value: self.running_value }
    }
}

} // verus!
