//! Decision logic of a ledger node's two pipeline stages.
//!
//! A validator's replicate stage and a leader's write stage are each modelled
//! as a state machine: the surrounding program performs the channel, network
//! and storage work, reports what came of it as an event, and is told what to
//! do next. Everything that is decided between two pieces of outside work is
//! decided here.

use vstd::prelude::*;

pub mod error;
pub mod leader_vote;
pub mod replicate_stage;
pub mod responder;
pub mod service;
pub mod write_stage;

verus! {

/// How long a worker waits on its inbound channel before it goes round its
/// loop again, in milliseconds.
pub const RECEIVE_TIMEOUT_MS: u64 = 1000;

} // verus!
