use vstd::prelude::*;

verus! {

/// Why processing a block, or the handoff around it, stopped.
#[derive(Debug)]
pub enum PipelineError {
    /// The delta store's engine reported an error.
    Storage(sled::Error),
    /// A value in the delta store is not the eight-byte encoding of an amount.
    MalformedValue,
    /// A running total left the range of `i64`.
    TallyOverflow,
    /// A block arrived at a height below the next one expected.
    OutOfOrder { expected: u64, received: u64 },
    /// A block arrived at the largest height, after which none can follow.
    HeightOverflow,
}

} // verus!
