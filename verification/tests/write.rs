use node_stages::error::ErrorKind;
use node_stages::write_stage::{WriteAction, WriteEvent, WritePhase, WriteStage};

type Stage = WriteStage<&'static str>;
type Event = WriteEvent<u32, &'static str>;
type Action = WriteAction<u32, &'static str>;

fn feed(stage: &mut Stage, events: Vec<Event>) -> Vec<Action> {
    let mut actions = Vec::new();
    for event in events {
        if let Some(action) = stage.step(event) {
            actions.push(action);
        }
    }
    actions
}

#[test]
fn new_write_stage_is_idle_and_has_not_voted() {
    let stage = Stage::new(1000);
    assert_eq!(stage.phase(), WritePhase::Idle);
    assert!(stage.held().is_empty());
    assert_eq!(stage.last_vote(), 0);
    assert!(!stage.is_stopped());
}

#[test]
fn three_entries_then_close_persists_once_and_broadcasts() {
    let mut stage = Stage::new(1000);
    let mut actions = Vec::new();
    actions.extend(stage.step(Event::Received(vec!["e1", "e2", "e3"])));
    assert_eq!(stage.held(), &vec!["e1", "e2", "e3"]);
    actions.extend(feed(
        &mut stage,
        vec![
            Event::Persisted,
            Event::Converted(vec![100]),
            Event::Sent,
            Event::Clock(50_000),
            Event::VoteEmitted,
            Event::Closed,
        ],
    ));
    assert_eq!(
        actions,
        vec![
            Action::VoteAndPersist,
            Action::Convert(vec!["e1", "e2", "e3"]),
            Action::Broadcast(vec![100]),
            Action::ReadClock,
            Action::EmitVote,
            Action::Receive,
            Action::Exit,
        ]
    );
    let persisted = actions.iter().filter(|a| **a == Action::VoteAndPersist).count();
    assert_eq!(persisted, 1);
    let broadcast: usize = actions
        .iter()
        .map(|a| match a {
            Action::Broadcast(blobs) => blobs.len(),
            _ => 0,
        })
        .sum();
    assert!(broadcast >= 1);
    assert!(stage.is_stopped());
    assert_eq!(stage.step(Event::Empty), None);
}

#[test]
fn timeout_skips_writing_but_still_votes() {
    let mut stage = Stage::new(1000);
    assert_eq!(stage.step(Event::Empty), Some(Action::ReadClock));
    assert_eq!(stage.phase(), WritePhase::Voting);
    assert_eq!(stage.step(Event::Clock(1000)), Some(Action::EmitVote));
    assert_eq!(stage.phase(), WritePhase::Emitting);
    assert_eq!(stage.step(Event::VoteEmitted), Some(Action::Receive));
    assert_eq!(stage.phase(), WritePhase::Idle);
    assert_eq!(stage.last_vote(), 1000);
}

#[test]
fn persistence_failure_is_reported_and_the_turn_goes_on() {
    let mut stage = Stage::new(1000);
    let actions = feed(
        &mut stage,
        vec![Event::Received(vec!["e"]), Event::PersistFailed],
    );
    assert_eq!(
        actions,
        vec![Action::VoteAndPersist, Action::Report(ErrorKind::Persistence)]
    );
    assert_eq!(stage.phase(), WritePhase::Voting);
    assert!(stage.held().is_empty());
    assert_eq!(stage.step(Event::Clock(10)), Some(Action::Receive));
    assert_eq!(stage.phase(), WritePhase::Idle);
    assert!(!stage.is_stopped());
}

#[test]
fn entries_that_give_no_blob_are_not_broadcast() {
    let mut stage = Stage::new(1000);
    let actions = feed(
        &mut stage,
        vec![Event::Received(vec![]), Event::Persisted, Event::Converted(vec![])],
    );
    assert_eq!(
        actions,
        vec![Action::VoteAndPersist, Action::Convert(vec![]), Action::ReadClock]
    );
    assert_eq!(stage.phase(), WritePhase::Voting);
}

#[test]
fn closed_broadcast_channel_ends_the_worker() {
    let mut stage = Stage::new(1000);
    let actions = feed(
        &mut stage,
        vec![
            Event::Received(vec!["e"]),
            Event::Persisted,
            Event::Converted(vec![1, 2]),
            Event::SendFailed,
        ],
    );
    assert_eq!(actions.last(), Some(&Action::Exit));
    assert_eq!(actions[2], Action::Broadcast(vec![1, 2]));
    assert!(stage.is_stopped());
    assert_eq!(stage.step(Event::Clock(5000)), None);
}

#[test]
fn closed_entry_channel_ends_the_write_worker() {
    let mut stage = Stage::new(1000);
    assert_eq!(stage.step(Event::Closed), Some(Action::Exit));
    assert!(stage.is_stopped());
    assert_eq!(stage.step(Event::Received(vec!["e"])), None);
    assert_eq!(stage.step(Event::Closed), None);
}

#[test]
fn vote_is_due_exactly_when_the_interval_has_elapsed() {
    let mut stage = Stage::new(1000);
    feed(&mut stage, vec![Event::Empty, Event::Clock(5000), Event::VoteEmitted]);
    assert_eq!(stage.last_vote(), 5000);

    stage.step(Event::Empty);
    assert_eq!(stage.step(Event::Clock(5999)), Some(Action::Receive));
    assert_eq!(stage.last_vote(), 5000);

    stage.step(Event::Empty);
    assert_eq!(stage.step(Event::Clock(6000)), Some(Action::EmitVote));
    assert_eq!(stage.step(Event::VoteEmitted), Some(Action::Receive));
    assert_eq!(stage.last_vote(), 6000);
}

#[test]
fn failed_vote_is_reported_and_does_not_count() {
    let mut stage = Stage::new(1000);
    let actions = feed(&mut stage, vec![Event::Empty, Event::Clock(3000), Event::VoteFailed]);
    assert_eq!(
        actions,
        vec![Action::ReadClock, Action::EmitVote, Action::Report(ErrorKind::VoteEmission)]
    );
    assert_eq!(stage.last_vote(), 0);
    assert_eq!(stage.phase(), WritePhase::Idle);
    let again = feed(&mut stage, vec![Event::Empty, Event::Clock(3010), Event::VoteEmitted]);
    assert_eq!(again, vec![Action::ReadClock, Action::EmitVote, Action::Receive]);
    assert_eq!(stage.last_vote(), 3010);
}

#[test]
fn clock_that_ran_backwards_lets_no_vote_out() {
    let mut stage = Stage::new(0);
    feed(&mut stage, vec![Event::Empty, Event::Clock(9000), Event::VoteEmitted]);
    stage.step(Event::Empty);
    assert_eq!(stage.step(Event::Clock(8000)), Some(Action::Receive));
    assert_eq!(stage.last_vote(), 9000);
    stage.step(Event::Empty);
    assert_eq!(stage.step(Event::Clock(9000)), Some(Action::EmitVote));
}

#[test]
fn votes_under_continuous_arrival_are_rate_limited() {
    let interval: u64 = 1000;
    let start: u64 = 1_700_000_000_000;
    let mut stage = Stage::new(interval);
    let mut emitted: u64 = 0;
    let mut persisted: u64 = 0;
    let mut turn: u64 = 0;
    while turn <= 500 {
        let now = start + 10 * turn;
        assert_eq!(stage.step(Event::Received(vec!["e"])), Some(Action::VoteAndPersist));
        persisted += 1;
        assert_eq!(stage.step(Event::Persisted), Some(Action::Convert(vec!["e"])));
        assert_eq!(stage.step(Event::Converted(vec![1])), Some(Action::Broadcast(vec![1])));
        assert_eq!(stage.step(Event::Sent), Some(Action::ReadClock));
        match stage.step(Event::Clock(now)) {
            Some(Action::EmitVote) => {
                assert_eq!(stage.step(Event::VoteEmitted), Some(Action::Receive));
                emitted += 1;
            }
            Some(Action::Receive) => {}
            other => panic!("unexpected action {:?}", other),
        }
        turn += 1;
    }
    let elapsed = 10 * 500;
    assert_eq!(persisted, 501);
    assert!(emitted <= elapsed / interval + 1);
    assert_eq!(emitted, 6);
    assert_eq!(stage.last_vote(), start + 5000);
}

#[test]
fn write_refuses_events_out_of_phase() {
    let mut stage = Stage::new(1000);
    assert_eq!(stage.step(Event::Persisted), None);
    assert_eq!(stage.step(Event::Clock(5000)), None);
    assert_eq!(stage.step(Event::VoteEmitted), None);
    assert_eq!(stage.step(Event::Sent), None);
    assert_eq!(stage.phase(), WritePhase::Idle);
    stage.step(Event::Received(vec!["a", "b"]));
    assert_eq!(stage.step(Event::Received(vec!["c"])), None);
    assert_eq!(stage.step(Event::Closed), None);
    assert_eq!(stage.step(Event::Converted(vec![1])), None);
    assert_eq!(stage.phase(), WritePhase::Persisting);
    assert_eq!(stage.held(), &vec!["a", "b"]);
}

#[test]
fn each_half_of_a_turn_takes_only_its_own_events() {
    let mut stage = Stage::new(1000);
    assert_eq!(stage.leader_vote(Event::Clock(5000)), None);
    assert_eq!(stage.leader_vote(Event::Empty), None);
    assert_eq!(stage.write_and_send_entries(Event::Empty), Some(Action::ReadClock));
    assert_eq!(stage.write_and_send_entries(Event::Empty), None);
    assert_eq!(stage.write_and_send_entries(Event::Clock(5000)), None);
    assert_eq!(stage.phase(), WritePhase::Voting);
    assert_eq!(stage.leader_vote(Event::Clock(5000)), Some(Action::EmitVote));
    assert_eq!(stage.write_and_send_entries(Event::VoteEmitted), None);
    assert_eq!(stage.leader_vote(Event::VoteEmitted), Some(Action::Receive));
    assert_eq!(stage.last_vote(), 5000);
}

#[test]
fn write_failures_are_told_apart_by_phase() {
    let mut stage = Stage::new(1000);
    assert_eq!(stage.failure_of(&Event::Empty), Some(ErrorKind::Timeout));
    assert_eq!(stage.failure_of(&Event::Closed), Some(ErrorKind::Disconnected));
    assert_eq!(stage.failure_of(&Event::PersistFailed), None);
    assert_eq!(stage.failure_of(&Event::Received(vec!["e"])), None);

    stage.step(Event::Received(vec!["e"]));
    assert_eq!(stage.failure_of(&Event::PersistFailed), Some(ErrorKind::Persistence));
    assert_eq!(stage.failure_of(&Event::Persisted), None);
    assert_eq!(stage.failure_of(&Event::Empty), None);

    stage.step(Event::Persisted);
    assert_eq!(stage.failure_of(&Event::Converted(vec![1])), None);
    assert_eq!(stage.failure_of(&Event::SendFailed), None);

    stage.step(Event::Converted(vec![1]));
    assert_eq!(stage.failure_of(&Event::SendFailed), Some(ErrorKind::OutboundClosed));
    assert_eq!(stage.failure_of(&Event::Sent), None);

    stage.step(Event::Sent);
    assert_eq!(stage.failure_of(&Event::Clock(7000)), None);
    assert_eq!(stage.failure_of(&Event::VoteFailed), None);

    stage.step(Event::Clock(7000));
    assert_eq!(stage.failure_of(&Event::VoteFailed), Some(ErrorKind::VoteEmission));
    assert_eq!(stage.failure_of(&Event::VoteEmitted), None);
}

#[test]
fn write_handles_failures_by_their_policy() {
    let mut stage = Stage::new(1000);
    let kind = stage.failure_of(&Event::Empty).unwrap();
    assert!(!kind.is_terminal() && !kind.is_logged());
    assert_eq!(stage.step(Event::Empty), Some(Action::ReadClock));
    assert_eq!(stage.step(Event::Clock(2000)), Some(Action::EmitVote));

    let kind = stage.failure_of(&Event::VoteFailed).unwrap();
    assert!(kind.is_logged());
    assert_eq!(stage.step(Event::VoteFailed), Some(Action::Report(kind)));
    assert!(!stage.is_stopped());

    feed(
        &mut stage,
        vec![Event::Received(vec!["e"]), Event::Persisted, Event::Converted(vec![1])],
    );
    let kind = stage.failure_of(&Event::SendFailed).unwrap();
    assert!(kind.is_terminal());
    assert_eq!(stage.step(Event::SendFailed), Some(Action::Exit));
    assert!(stage.is_stopped());
}
