use node_stages::error::{ErrorKind, Policy};
use node_stages::leader_vote::VoteLimiter;
use node_stages::responder::{respond, ResponderAction, ResponderEvent};
use node_stages::service::{join_outcome, WorkerExit};

#[test]
fn policy_table_has_each_kind() {
    assert_eq!(ErrorKind::Timeout.policy(), Policy::Retry);
    assert_eq!(ErrorKind::Disconnected.policy(), Policy::Terminate);
    assert_eq!(ErrorKind::OutboundClosed.policy(), Policy::Terminate);
    assert_eq!(ErrorKind::Decode.policy(), Policy::LogAndContinue);
    assert_eq!(ErrorKind::StateApply.policy(), Policy::LogAndContinue);
    assert_eq!(ErrorKind::Persistence.policy(), Policy::LogAndContinue);
    assert_eq!(ErrorKind::VoteEmission.policy(), Policy::LogAndContinue);
}

#[test]
fn only_closed_channels_are_terminal() {
    assert!(ErrorKind::Disconnected.is_terminal());
    assert!(ErrorKind::OutboundClosed.is_terminal());
    assert!(!ErrorKind::Timeout.is_terminal());
    assert!(!ErrorKind::Decode.is_terminal());
    assert!(!ErrorKind::StateApply.is_terminal());
    assert!(!ErrorKind::Persistence.is_terminal());
    assert!(!ErrorKind::VoteEmission.is_terminal());
}

#[test]
fn timeouts_and_closed_channels_are_not_logged() {
    assert!(!ErrorKind::Timeout.is_logged());
    assert!(!ErrorKind::Disconnected.is_logged());
    assert!(!ErrorKind::OutboundClosed.is_logged());
    assert!(ErrorKind::Decode.is_logged());
    assert!(ErrorKind::StateApply.is_logged());
    assert!(ErrorKind::Persistence.is_logged());
    assert!(ErrorKind::VoteEmission.is_logged());
}

#[test]
fn join_of_clean_workers_is_ok() {
    assert_eq!(join_outcome(&vec![]), Ok(()));
    assert_eq!(join_outcome(&vec![WorkerExit::Clean]), Ok(()));
    assert_eq!(
        join_outcome(&vec![WorkerExit::Clean, WorkerExit::Clean, WorkerExit::Clean]),
        Ok(())
    );
}

#[test]
fn join_surfaces_the_first_failure() {
    assert_eq!(join_outcome(&vec![WorkerExit::Failed]), Err(0));
    assert_eq!(
        join_outcome(&vec![WorkerExit::Clean, WorkerExit::Failed, WorkerExit::Failed]),
        Err(1)
    );
    assert_eq!(
        join_outcome(&vec![WorkerExit::Clean, WorkerExit::Clean, WorkerExit::Failed]),
        Err(2)
    );
}

#[test]
fn responder_transmits_each_batch_as_received() {
    assert_eq!(
        respond(ResponderEvent::Received(vec![4u8, 5, 6])),
        ResponderAction::Transmit(vec![4u8, 5, 6])
    );
    assert_eq!(
        respond(ResponderEvent::Received(Vec::<u8>::new())),
        ResponderAction::Transmit(vec![])
    );
}

#[test]
fn responder_ends_when_its_queue_is_closed() {
    assert_eq!(respond(ResponderEvent::<u8>::Closed), ResponderAction::Exit);
}

#[test]
fn responder_does_not_retry_a_failed_transmission() {
    assert_eq!(respond(ResponderEvent::<u8>::TransmitFailed), ResponderAction::Receive);
    assert_eq!(respond(ResponderEvent::<u8>::Transmitted), ResponderAction::Receive);
    assert_eq!(respond(ResponderEvent::<u8>::Empty), ResponderAction::Receive);
}

#[test]
fn limiter_starts_without_a_vote() {
    let limiter = VoteLimiter::new(250);
    assert_eq!(limiter.last_vote, 0);
    assert_eq!(limiter.min_interval, 250);
    assert!(!limiter.is_due(249));
    assert!(limiter.is_due(250));
}

#[test]
fn limiter_is_due_at_the_interval_and_not_before() {
    let mut limiter = VoteLimiter::new(1000);
    limiter.record(20_000);
    assert_eq!(limiter.last_vote, 20_000);
    assert_eq!(limiter.min_interval, 1000);
    assert!(!limiter.is_due(20_000));
    assert!(!limiter.is_due(20_999));
    assert!(limiter.is_due(21_000));
    assert!(limiter.is_due(u64::MAX));
    assert!(!limiter.is_due(19_000));
    assert!(!limiter.is_due(0));
}

#[test]
fn limiter_counts_only_votes_that_went_out() {
    let mut limiter = VoteLimiter::new(100);
    assert!(!limiter.attempt(50, true));
    assert_eq!(limiter.last_vote, 0);
    assert!(!limiter.attempt(100, false));
    assert_eq!(limiter.last_vote, 0);
    assert!(limiter.attempt(120, true));
    assert_eq!(limiter.last_vote, 120);
    assert!(!limiter.attempt(219, true));
    assert!(limiter.attempt(220, true));
    assert_eq!(limiter.last_vote, 220);
}

#[test]
fn limiter_bounds_votes_by_elapsed_time() {
    let mut limiter = VoteLimiter::new(300);
    let start: u64 = 10_000;
    let mut emitted: u64 = 0;
    let mut tick: u64 = 0;
    while tick <= 2000 {
        if limiter.attempt(start + tick, tick % 7 != 0) {
            emitted += 1;
        }
        tick += 1;
    }
    assert!(emitted <= 2000 / 300 + 1);
    assert_eq!(emitted, 7);
}

#[test]
fn receive_timeout_is_one_second() {
    assert_eq!(node_stages::RECEIVE_TIMEOUT_MS, 1000);
}
