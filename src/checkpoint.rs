use vstd::prelude::*;

verus! {

/// The text of a block time: the UTC date and time of `secs` seconds after
/// the Unix epoch, formatted `%Y-%m-%d %H:%M:%S UTC`.
pub uninterp spec fn utc_date_text(secs: u32) -> Seq<char>;

/// Relies on chrono's `Utc.timestamp_opt` and `DateTime::format` to render a
/// block time; every `u32` number of seconds is a single valid UTC instant.
#[verifier::external_body]
pub(crate) fn format_block_time(secs: u32) -> (r: String)
    ensures
        r@ == utc_date_text(secs),
{
    chrono::TimeZone::timestamp_opt(&chrono::Utc, secs as i64, 0).unwrap().format("%Y-%m-%d %H:%M:%S UTC").to_string()
}

/// A checkpoint in the model: the totals as of one block.
pub struct CheckpointRow {
    pub height: int,
    pub hash: Seq<char>,
    pub date: Seq<char>,
    pub count: int,
    pub value: int,
}

/// One checkpoint: the running totals of the unspent tracked outputs as of
/// one block, identified by its height and hash, with the block's date.
#[derive(Clone, Debug)]
pub struct BlockAggregateOutput {
    pub date: String,
    pub block_height: u64,
    pub block_hash_big_endian: String,
    pub total_utxos: i64,
    pub total_sats: i64,
}

impl View for BlockAggregateOutput {
    type V = CheckpointRow;

    open spec fn view(&self) -> CheckpointRow {
        CheckpointRow {
            height: self.block_height as int,
            hash: self.block_hash_big_endian@,
            date: self.date@,
            count: self.total_utxos as int,
            value: self.total_sats as int,
        }
    }
}

} // verus!
