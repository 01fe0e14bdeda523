use vstd::prelude::*;

verus! {

/// What the fetch role is waiting for.
#[derive(Clone, Copy, Debug, PartialEq, Eq, Structural)]
pub enum FetchPhase {
    /// The header at the next height has been asked for.
    LookingUp,
    /// A block has been requested and its processing is not yet acknowledged.
    AwaitingAck,
    /// The provider's current tip has been asked for.
    RefreshingTip,
    /// The fetch loop is over.
    Finished,
}

/// What the fetch role learns from the provider and from the process role.
#[derive(Clone, Copy, Debug, PartialEq, Eq, Structural)]
pub enum FetchEvent {
    /// The provider knows a header at this height.
    HeaderFound { height: u64 },
    /// The provider knows no header at this height.
    HeaderMissing { height: u64 },
    /// The process role has processed the block at this height.
    Acknowledged { height: u64 },
    /// The process role can no longer acknowledge anything.
    AckChannelClosed,
    /// The provider's current tip is at this height.
    Tip { height: u64 },
}

/// Why the fetch loop stopped abnormally.
#[derive(Clone, Copy, Debug, PartialEq, Eq, Structural)]
pub enum FetchFault {
    /// The acknowledged height is not the height that was requested.
    AckMismatch { expected: u64, received: u64 },
    /// An event came that the current phase does not wait for.
    UnexpectedEvent,
}

/// What the fetch role is to do next.
#[derive(Clone, Copy, Debug, PartialEq, Eq, Structural)]
pub enum FetchAction {
    /// Ask the provider for the header at this height.
    LookUpHeader { height: u64 },
    /// Ask the provider to deliver the block at this height, then wait for
    /// the process role's acknowledgment.
    RequestBlock { height: u64 },
    /// Ask the provider for its current tip.
    QueryTip,
    /// Every height up to the tip is done: shut the provider down.
    Shutdown,
    /// Stop: the handoff broke its protocol.
    Abort { fault: FetchFault },
}

/// The fetch role's state: the next height to fetch, the highest tip known,
/// the height whose block is between request and acknowledgment, if any, and
/// the phase.
#[derive(Clone, Copy, Debug, PartialEq, Eq, Structural)]
pub struct FetchCoordinator {
    pub next_height: u64,
    pub tip: u64,
    pub in_flight: Option<u64>,
    pub phase: FetchPhase,
}

/// Go on at height `next`: look up its header if it is at or below the tip,
/// else finish.
pub open spec fn advance(next: u64, tip: u64, in_flight: Option<u64>) -> (FetchCoordinator, FetchAction) {
    if next <= tip {
        (FetchCoordinator { next_height: next, tip, in_flight, phase: FetchPhase::LookingUp },
            FetchAction::LookUpHeader { height: next })
    } else {
        (FetchCoordinator { next_height: next, tip, in_flight, phase: FetchPhase::Finished },
            FetchAction::Shutdown)
    }
}

/// Stop with a fault.
pub open spec fn abort(s: FetchCoordinator, fault: FetchFault) -> (FetchCoordinator, FetchAction) {
    (FetchCoordinator { phase: FetchPhase::Finished, ..s }, FetchAction::Abort { fault })
}

/// One decision of the fetch role: its next state and action after an event.
pub open spec fn fetch_step(s: FetchCoordinator, ev: FetchEvent) -> (FetchCoordinator, FetchAction) {
    match (s.phase, ev) {
        (FetchPhase::LookingUp, FetchEvent::HeaderFound { height }) => if height == s.next_height {
            (FetchCoordinator { in_flight: Some(height), phase: FetchPhase::AwaitingAck, ..s },
                FetchAction::RequestBlock { height })
        } else {
            abort(s, FetchFault::UnexpectedEvent)
        },
        (FetchPhase::LookingUp, FetchEvent::HeaderMissing { height }) => if height != s.next_height {
            abort(s, FetchFault::UnexpectedEvent)
        } else if height == u64::MAX {
            (FetchCoordinator { phase: FetchPhase::Finished, ..s }, FetchAction::Shutdown)
        } else {
            advance((height + 1) as u64, s.tip, s.in_flight)
        },
        (FetchPhase::AwaitingAck, FetchEvent::Acknowledged { height }) => match s.in_flight {
            Some(h) => if height != h {
                abort(s, FetchFault::AckMismatch { expected: h, received: height })
            } else if h == u64::MAX {
                (FetchCoordinator { in_flight: None, phase: FetchPhase::Finished, ..s }, FetchAction::Shutdown)
            } else {
                (FetchCoordinator { next_height: (h + 1) as u64, in_flight: None, phase: FetchPhase::RefreshingTip, ..s },
                    FetchAction::QueryTip)
            },
            None => abort(s, FetchFault::UnexpectedEvent),
        },
        (FetchPhase::AwaitingAck, FetchEvent::AckChannelClosed) =>
            (FetchCoordinator { phase: FetchPhase::Finished, ..s }, FetchAction::Shutdown),
        (FetchPhase::RefreshingTip, FetchEvent::Tip { height }) => {
            let tip = if height > s.tip { height } else { s.tip };
            advance(s.next_height, tip, s.in_flight)
        },
        _ => abort(s, FetchFault::UnexpectedEvent),
    }
}

impl FetchCoordinator {
    /// Well-formed: a block is in flight exactly while an acknowledgment is
    /// awaited, or after the acknowledgment channel closed with one in flight.
    pub open spec fn wf(self) -> bool {
        &&& (self.phase is LookingUp || self.phase is RefreshingTip) ==> self.in_flight is None
        &&& self.phase is AwaitingAck ==> self.in_flight is Some
    }

    /// Starts fetching at `resume_height` with the provider's tip at `tip`:
    /// the header at the resume height is looked up if it is at or below the
    /// tip, else there is nothing to fetch.
    pub fn start(resume_height: u64, tip: u64) -> (r: (FetchCoordinator, FetchAction))
        ensures
            r == advance(resume_height, tip, None),
            r.0.wf(),
    {
        Self::advance_exec(resume_height, tip, None)
    }

    fn advance_exec(next: u64, tip: u64, in_flight: Option<u64>) -> (r: (FetchCoordinator, FetchAction))
        ensures
            r == advance(next, tip, in_flight),
    {
        if next <= tip {
            (FetchCoordinator { next_height: next, tip, in_flight, phase: FetchPhase::LookingUp },
                FetchAction::LookUpHeader { height: next })
        } else {
            (FetchCoordinator { next_height: next, tip, in_flight, phase: FetchPhase::Finished },
                FetchAction::Shutdown)
        }
    }

    fn abort_exec(&mut self, fault: FetchFault) -> (a: FetchAction)
        ensures
            (*final(self), a) == abort(*old(self), fault),
    {
        self.phase = FetchPhase::Finished;
        FetchAction::Abort { fault }
    }

    /// Takes one event and returns the next action. A header found at the
    /// next height makes that block requested; a header missing skips the
    /// height; an acknowledgment of the requested height clears it and asks
    /// for the tip; one of another height aborts; a closed acknowledgment
    /// channel ends the loop; a tip raises the known tip if higher, and the
    /// loop goes on while the next height is at or below it.
    pub fn step(&mut self, ev: FetchEvent) -> (a: FetchAction)
        ensures
            (*final(self), a) == fetch_step(*old(self), ev),
    {
        match (self.phase, ev) {
            (FetchPhase::LookingUp, FetchEvent::HeaderFound { height }) => {
                if height == self.next_height {
                    self.in_flight = Some(height);
                    self.phase = FetchPhase::AwaitingAck;
                    FetchAction::RequestBlock { height }
                } else {
                    self.abort_exec(FetchFault::UnexpectedEvent)
                }
            },
            (FetchPhase::LookingUp, FetchEvent::HeaderMissing { height }) => {
                if height != self.next_height {
                    self.abort_exec(FetchFault::UnexpectedEvent)
                } else if height == u64::MAX {
                    self.phase = FetchPhase::Finished;
                    FetchAction::Shutdown
                } else {
                    let (s, a) = Self::advance_exec(height + 1, self.tip, self.in_flight);
                    *self = s;
                    a
                }
            },
            (FetchPhase::AwaitingAck, FetchEvent::Acknowledged { height }) => {
                match self.in_flight {
                    Some(h) => {
                        if height != h {
                            self.abort_exec(FetchFault::AckMismatch { expected: h, received: height })
                        } else if h == u64::MAX {
                            self.in_flight = None;
                            self.phase = FetchPhase::Finished;
                            FetchAction::Shutdown
                        } else {
                            self.next_height = h + 1;
                            self.in_flight = None;
                            self.phase = FetchPhase::RefreshingTip;
                            FetchAction::QueryTip
                        }
                    },
                    None => self.abort_exec(FetchFault::UnexpectedEvent),
                }
            },
            (FetchPhase::AwaitingAck, FetchEvent::AckChannelClosed) => {
                self.phase = FetchPhase::Finished;
                FetchAction::Shutdown
            },
            (FetchPhase::RefreshingTip, FetchEvent::Tip { height }) => {
                let tip = if height > self.tip { height } else { self.tip };
                let (s, a) = Self::advance_exec(self.next_height, tip, self.in_flight);
                *self = s;
                a
            },
            _ => self.abort_exec(FetchFault::UnexpectedEvent),
        }
    }
}

} // verus!
