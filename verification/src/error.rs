//! Failure kinds of the stages and what a worker does about each.

use vstd::prelude::*;

verus! {

/// What went wrong during one step of a worker's loop.
#[derive(Clone, Copy, Debug, PartialEq, Eq, Structural)]
pub enum ErrorKind {
    /// A blocking receive ran out of time with nothing queued.
    Timeout,
    /// The producer side of the inbound channel is gone.
    Disconnected,
    /// Entries could not be reconstructed from a batch of blobs.
    Decode,
    /// The ledger state refused a batch of entries.
    StateApply,
    /// Entries could not be persisted.
    Persistence,
    /// The leader's vote could not be emitted.
    VoteEmission,
    /// The consumer side of the outbound broadcast channel is gone.
    OutboundClosed,
}

/// What a worker does after a failure of some kind.
#[derive(Clone, Copy, Debug, PartialEq, Eq, Structural)]
pub enum Policy {
    /// Nothing is wrong: go round the loop again without a word.
    Retry,
    /// The worker's thread ends cleanly.
    Terminate,
    /// The failure is made observable and the loop goes on.
    LogAndContinue,
}

/// The policy table: which policy each kind of failure has.
pub open spec fn policy_of(kind: ErrorKind) -> Policy {
    match kind {
        ErrorKind::Timeout => Policy::Retry,
        ErrorKind::Disconnected => Policy::Terminate,
        ErrorKind::OutboundClosed => Policy::Terminate,
        ErrorKind::Decode => Policy::LogAndContinue,
        ErrorKind::StateApply => Policy::LogAndContinue,
        ErrorKind::Persistence => Policy::LogAndContinue,
        ErrorKind::VoteEmission => Policy::LogAndContinue,
    }
}

impl ErrorKind {
    /// Looks the kind up in the policy table.
    pub fn policy(self) -> (p: Policy)
        ensures
            p == policy_of(self),
    {
        match self {
            ErrorKind::Timeout => Policy::Retry,
            ErrorKind::Disconnected | ErrorKind::OutboundClosed => Policy::Terminate,
            ErrorKind::Decode
            | ErrorKind::StateApply
            | ErrorKind::Persistence
            | ErrorKind::VoteEmission => Policy::LogAndContinue,
        }
    }

    /// Whether a worker's thread ends on this kind of failure.
    pub fn is_terminal(self) -> (b: bool)
        ensures
            b == (policy_of(self) == Policy::Terminate),
            b == (self == ErrorKind::Disconnected || self == ErrorKind::OutboundClosed),
    {
        match self.policy() {
            Policy::Terminate => true,
            _ => false,
        }
    }

    /// Whether this kind of failure is made observable in the log.
    pub fn is_logged(self) -> (b: bool)
        ensures
            b == (policy_of(self) == Policy::LogAndContinue),
    {
        match self.policy() {
            Policy::LogAndContinue => true,
            _ => false,
        }
    }
}

} // verus!
