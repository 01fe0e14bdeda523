use vstd::prelude::*;

use crate::address::BtcAddressType;

verus! {

/// How many of the latest checkpoints a query of the latest aggregates
/// asks for when it names no number: all of them.
pub const DEFAULT_NUM_LATEST_BLOCKS: i64 = 0;

/// The sampling interval of a query of the latest aggregates when it names
/// none: every tenth height.
pub const DEFAULT_SAMPLING_INTERVAL: i64 = 10;

/// A query of the latest checkpoints: of which address type, over how many
/// of the latest heights (zero or less: all), keeping the heights that are
/// multiples of the sampling interval.
#[derive(Clone, Copy, Debug, PartialEq, Eq, Structural)]
pub struct LatestQuery {
    pub address_type: BtcAddressType,
    pub num_latest_blocks: i64,
    pub sampling_interval: i64,
}

impl LatestQuery {
    /// Fills in what a query leaves out: the P2PK type, all heights, and a
    /// sampling interval of ten.
    pub fn resolve(
        address_type: Option<BtcAddressType>,
        num_latest_blocks: Option<i64>,
        sampling_interval: Option<i64>,
    ) -> (r: LatestQuery)
        ensures
            r.address_type == match address_type { Some(t) => t, None => BtcAddressType::P2PK },
            r.num_latest_blocks == match num_latest_blocks { Some(n) => n, None => DEFAULT_NUM_LATEST_BLOCKS },
            r.sampling_interval == match sampling_interval { Some(i) => i, None => DEFAULT_SAMPLING_INTERVAL },
    {
        LatestQuery {
            address_type: match address_type {
                Some(t) => t,
                None => BtcAddressType::P2PK,
            },
            num_latest_blocks: match num_latest_blocks {
                Some(n) => n,
                None => DEFAULT_NUM_LATEST_BLOCKS,
            },
            sampling_interval: match sampling_interval {
                Some(i) => i,
                None => DEFAULT_SAMPLING_INTERVAL,
            },
        }
    }
}

/// Whether a chart is to be captured after the block at `height`, with a
/// chart every `every` blocks; never where `every` is zero.
pub fn is_chart_height(height: u64, every: u64) -> (r: bool)
    ensures
        r == (every > 0 && height % every == 0),
{
    every > 0 && height % every == 0
}

} // verus!
