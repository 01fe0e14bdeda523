use vstd::prelude::*;

verus! {

/// How a worker thread of the pipeline ended. Every ending is abnormal:
/// the workers run until the provider stops.
#[derive(Clone, Copy, Debug, PartialEq, Eq, Structural)]
pub enum WorkerEnd {
    /// The worker returned an error.
    Failed,
    /// The worker returned without an error.
    Returned,
    /// The worker's result never arrived.
    Lost,
}

/// The two worker threads.
#[derive(Clone, Copy, Debug, PartialEq, Eq, Structural)]
pub enum Worker {
    Client,
    Processor,
}

/// How much an ending says about what went wrong: a failure most, a lost
/// result less, a plain return least.
pub open spec fn severity(e: WorkerEnd) -> nat {
    match e {
        WorkerEnd::Failed => 2,
        WorkerEnd::Lost => 1,
        WorkerEnd::Returned => 0,
    }
}

fn severity_exec(e: WorkerEnd) -> (r: u8)
    ensures
        r == severity(e),
{
    match e {
        WorkerEnd::Failed => 2,
        WorkerEnd::Lost => 1,
        WorkerEnd::Returned => 0,
    }
}

/// The worker whose ending the pipeline reports: the one with the more
/// severe ending, and the block processor where both are alike.
pub fn worker_to_report(client: WorkerEnd, processor: WorkerEnd) -> (r: Worker)
    ensures
        r == if severity(processor) >= severity(client) { Worker::Processor } else { Worker::Client },
{
    if severity_exec(processor) >= severity_exec(client) {
        Worker::Processor
    } else {
        Worker::Client
    }
}

} // verus!
