//! The leader's write stage: entries come in from the local producer, are
//! voted on, persisted and turned into blobs for broadcast; and once per turn
//! of the loop, whatever came of the rest, the leader's own vote is attempted.
//!
//! The stage is a state machine. Its worker does the outside work (receiving
//! from the channel, merging votes, persisting, converting, enqueueing,
//! reading the clock, emitting the vote) and reports each outcome as an event;
//! the stage answers with the next action. `E` is an entry and `B` a blob:
//! the stage hands them on unread.

use vstd::prelude::*;
use crate::error::{policy_of, ErrorKind, Policy};
use crate::leader_vote::{last_vote_after, vote_due, Attempt, VoteLimiter};

verus! {

/// Where in one turn of its loop the stage is.
#[derive(Clone, Copy, Debug, PartialEq, Eq, Structural)]
pub enum WritePhase {
    /// Waiting, for up to the receive timeout, for a batch of entries.
    Idle,
    /// The entries held are being voted on and persisted.
    Persisting,
    /// The entries are being turned into blobs.
    Converting,
    /// The blobs are being enqueued for broadcast.
    Broadcasting,
    /// The turn's writing is over; the clock is being read for the vote.
    Voting,
    /// The leader's vote is being emitted.
    Emitting,
    /// A channel is closed and the worker has ended.
    Stopped,
}

/// What the worker reports to the stage.
#[derive(Debug, PartialEq, Eq)]
pub enum WriteEvent<B, E> {
    /// The receive yielded a batch of entries.
    Received(Vec<E>),
    /// The receive timed out.
    Empty,
    /// The entry channel is closed.
    Closed,
    /// The entries are persisted and registered with the ledger state.
    Persisted,
    /// The entries could not be persisted.
    PersistFailed,
    /// The entries were turned into these blobs.
    Converted(Vec<B>),
    /// The blobs are on the broadcast channel.
    Sent,
    /// The broadcast channel is closed.
    SendFailed,
    /// The clock reads this many milliseconds.
    Clock(u64),
    /// The leader's vote went out.
    VoteEmitted,
    /// The leader's vote could not be emitted.
    VoteFailed,
}

/// What the stage tells the worker to do next.
#[derive(Debug, PartialEq, Eq)]
pub enum WriteAction<B, E> {
    /// Wait on the entry channel for up to `RECEIVE_TIMEOUT_MS`.
    Receive,
    /// Derive votes from the entries the stage holds and merge them into the
    /// gossip table under its write lock, then persist the entries and
    /// register them with the ledger state.
    VoteAndPersist,
    /// Turn these entries into blobs, as many entries to a blob as fit.
    Convert(Vec<E>),
    /// Count the votes merged and the blobs produced, and enqueue these blobs
    /// on the broadcast channel.
    Broadcast(Vec<B>),
    /// Read the clock, for the leader's vote.
    ReadClock,
    /// Emit the leader's vote.
    EmitVote,
    /// Log a failure of this kind and go on with the turn: after a failure to
    /// persist, read the clock; after a failure to vote, receive.
    Report(ErrorKind),
    /// End the worker's thread.
    Exit,
}

/// An event with its payload as a sequence.
#[verifier::ext_equal]
pub enum WriteEventView<B, E> {
    Received(Seq<E>),
    Empty,
    Closed,
    Persisted,
    PersistFailed,
    Converted(Seq<B>),
    Sent,
    SendFailed,
    Clock(u64),
    VoteEmitted,
    VoteFailed,
}

/// An action with its payload as a sequence.
#[verifier::ext_equal]
pub enum WriteActionView<B, E> {
    Receive,
    VoteAndPersist,
    Convert(Seq<E>),
    Broadcast(Seq<B>),
    ReadClock,
    EmitVote,
    Report(ErrorKind),
    Exit,
}

impl<B, E> View for WriteEvent<B, E> {
    type V = WriteEventView<B, E>;

    open spec fn view(&self) -> WriteEventView<B, E> {
        match *self {
            WriteEvent::Received(entries) => WriteEventView::Received(entries@),
            WriteEvent::Empty => WriteEventView::Empty,
            WriteEvent::Closed => WriteEventView::Closed,
            WriteEvent::Persisted => WriteEventView::Persisted,
            WriteEvent::PersistFailed => WriteEventView::PersistFailed,
            WriteEvent::Converted(blobs) => WriteEventView::Converted(blobs@),
            WriteEvent::Sent => WriteEventView::Sent,
            WriteEvent::SendFailed => WriteEventView::SendFailed,
            WriteEvent::Clock(now) => WriteEventView::Clock(now),
            WriteEvent::VoteEmitted => WriteEventView::VoteEmitted,
            WriteEvent::VoteFailed => WriteEventView::VoteFailed,
        }
    }
}

impl<B, E> View for WriteAction<B, E> {
    type V = WriteActionView<B, E>;

    open spec fn view(&self) -> WriteActionView<B, E> {
        match *self {
            WriteAction::Receive => WriteActionView::Receive,
            WriteAction::VoteAndPersist => WriteActionView::VoteAndPersist,
            WriteAction::Convert(entries) => WriteActionView::Convert(entries@),
            WriteAction::Broadcast(blobs) => WriteActionView::Broadcast(blobs@),
            WriteAction::ReadClock => WriteActionView::ReadClock,
            WriteAction::EmitVote => WriteActionView::EmitVote,
            WriteAction::Report(kind) => WriteActionView::Report(kind),
            WriteAction::Exit => WriteActionView::Exit,
        }
    }
}

/// The stage as contracts see it.
#[verifier::ext_equal]
pub struct WriteState<E> {
    pub phase: WritePhase,
    /// The entries of the batch in hand, in the order received.
    pub held: Seq<E>,
    /// When the leader's last vote went out, and how far apart votes must be.
    pub limiter: VoteLimiter,
    /// The clock's reading for the vote that is being emitted.
    pub vote_time: u64,
}

impl<E> WriteState<E> {
    /// The state with another phase and no entries in hand.
    pub open spec fn moved_to(self, phase: WritePhase) -> WriteState<E> {
        WriteState { phase, held: Seq::empty(), ..self }
    }

    /// Entries are in hand only while they are being persisted.
    pub open spec fn wf(self) -> bool {
        self.phase != WritePhase::Persisting ==> self.held.len() == 0
    }
}

/// The stage of a leader that has not voted yet, waiting for entries.
pub open spec fn write_idle<E>(min_vote_interval: u64) -> WriteState<E> {
    WriteState {
        phase: WritePhase::Idle,
        held: Seq::empty(),
        limiter: VoteLimiter { last_vote: 0, min_interval: min_vote_interval },
        vote_time: 0,
    }
}

/// The first half of a turn: the state and the action that follow `event`
/// while entries are received, persisted and broadcast, or `None` where the
/// event cannot come in that phase.
pub open spec fn write_and_send_next<B, E>(s: WriteState<E>, event: WriteEventView<B, E>) -> Option<
    (WriteState<E>, WriteActionView<B, E>),
> {
    match (s.phase, event) {
        (WritePhase::Idle, WriteEventView::Received(entries)) => Some(
            (
                WriteState { phase: WritePhase::Persisting, held: entries, ..s },
                WriteActionView::VoteAndPersist,
            ),
        ),
        (WritePhase::Idle, WriteEventView::Empty) => Some(
            (s.moved_to(WritePhase::Voting), WriteActionView::ReadClock),
        ),
        (WritePhase::Idle, WriteEventView::Closed) => Some(
            (s.moved_to(WritePhase::Stopped), WriteActionView::Exit),
        ),
        (WritePhase::Persisting, WriteEventView::Persisted) => Some(
            (s.moved_to(WritePhase::Converting), WriteActionView::Convert(s.held)),
        ),
        (WritePhase::Persisting, WriteEventView::PersistFailed) => Some(
            (s.moved_to(WritePhase::Voting), WriteActionView::Report(ErrorKind::Persistence)),
        ),
        (WritePhase::Converting, WriteEventView::Converted(blobs)) => if blobs.len() > 0 {
            Some((s.moved_to(WritePhase::Broadcasting), WriteActionView::Broadcast(blobs)))
        } else {
            Some((s.moved_to(WritePhase::Voting), WriteActionView::ReadClock))
        },
        (WritePhase::Broadcasting, WriteEventView::Sent) => Some(
            (s.moved_to(WritePhase::Voting), WriteActionView::ReadClock),
        ),
        (WritePhase::Broadcasting, WriteEventView::SendFailed) => Some(
            (s.moved_to(WritePhase::Stopped), WriteActionView::Exit),
        ),
        _ => None,
    }
}

/// The second half of a turn: the state and the action that follow `event`
/// while the leader's vote is attempted, or `None` where the event cannot
/// come in that phase.
pub open spec fn leader_vote_next<B, E>(s: WriteState<E>, event: WriteEventView<B, E>) -> Option<
    (WriteState<E>, WriteActionView<B, E>),
> {
    match (s.phase, event) {
        (WritePhase::Voting, WriteEventView::Clock(now)) => if vote_due(
            s.limiter.last_vote as int,
            s.limiter.min_interval as int,
            now as int,
        ) {
            Some(
                (
                    WriteState { vote_time: now, ..s.moved_to(WritePhase::Emitting) },
                    WriteActionView::EmitVote,
                ),
            )
        } else {
            Some((s.moved_to(WritePhase::Idle), WriteActionView::Receive))
        },
        (WritePhase::Emitting, WriteEventView::VoteEmitted) => Some(
            (
                WriteState {
                    limiter: VoteLimiter { last_vote: s.vote_time, ..s.limiter },
                    ..s.moved_to(WritePhase::Idle)
                },
                WriteActionView::Receive,
            ),
        ),
        (WritePhase::Emitting, WriteEventView::VoteFailed) => Some(
            (s.moved_to(WritePhase::Idle), WriteActionView::Report(ErrorKind::VoteEmission)),
        ),
        _ => None,
    }
}

/// The stage's transition, over both halves of a turn.
pub open spec fn write_next<B, E>(s: WriteState<E>, event: WriteEventView<B, E>) -> Option<
    (WriteState<E>, WriteActionView<B, E>),
> {
    match s.phase {
        WritePhase::Voting | WritePhase::Emitting => leader_vote_next(s, event),
        _ => write_and_send_next(s, event),
    }
}

/// The kind of failure that `event` reports in `phase`, if it reports one.
pub open spec fn write_failure<B, E>(phase: WritePhase, event: WriteEventView<B, E>) -> Option<
    ErrorKind,
> {
    match (phase, event) {
        (WritePhase::Idle, WriteEventView::Empty) => Some(ErrorKind::Timeout),
        (WritePhase::Idle, WriteEventView::Closed) => Some(ErrorKind::Disconnected),
        (WritePhase::Persisting, WriteEventView::PersistFailed) => Some(ErrorKind::Persistence),
        (WritePhase::Broadcasting, WriteEventView::SendFailed) => Some(ErrorKind::OutboundClosed),
        (WritePhase::Emitting, WriteEventView::VoteFailed) => Some(ErrorKind::VoteEmission),
        _ => None,
    }
}

/// The write stage of a leader.
pub struct WriteStage<E> {
    phase: WritePhase,
    entries: Vec<E>,
    limiter: VoteLimiter,
    vote_time: u64,
}

impl<E> View for WriteStage<E> {
    type V = WriteState<E>;

    closed spec fn view(&self) -> WriteState<E> {
        WriteState {
            phase: self.phase,
            held: self.entries@,
            limiter: self.limiter,
            vote_time: self.vote_time,
        }
    }
}

impl<E> WriteStage<E> {
    /// A stage that waits for its first entries, for a leader whose votes are
    /// to be at least `min_vote_interval` milliseconds apart.
    pub fn new(min_vote_interval: u64) -> (stage: Self)
        ensures
            stage@ == write_idle::<E>(min_vote_interval),
            stage@.wf(),
    {
        WriteStage {
            phase: WritePhase::Idle,
            entries: Vec::new(),
            limiter: VoteLimiter::new(min_vote_interval),
            vote_time: 0,
        }
    }

    /// The phase the stage is in.
    pub fn phase(&self) -> (phase: WritePhase)
        ensures
            phase == self@.phase,
    {
        self.phase
    }

    /// The entries in hand, in the order received: what is voted on and
    /// persisted.
    pub fn held(&self) -> (entries: &Vec<E>)
        ensures
            entries@ == self@.held,
    {
        &self.entries
    }

    /// When the leader's last vote went out; 0 before the first.
    pub fn last_vote(&self) -> (at: u64)
        ensures
            at == self@.limiter.last_vote,
    {
        self.limiter.last_vote
    }

    /// Whether the worker has ended.
    pub fn is_stopped(&self) -> (stopped: bool)
        ensures
            stopped == (self@.phase == WritePhase::Stopped),
    {
        match self.phase {
            WritePhase::Stopped => true,
            _ => false,
        }
    }

    /// The kind of failure that `event` reports to the stage as it stands, if
    /// it reports one.
    pub fn failure_of<B>(&self, event: &WriteEvent<B, E>) -> (kind: Option<ErrorKind>)
        ensures
            kind == write_failure(self@.phase, event@),
    {
        match self.phase {
            WritePhase::Idle => match event {
                WriteEvent::Empty => Some(ErrorKind::Timeout),
                WriteEvent::Closed => Some(ErrorKind::Disconnected),
                _ => None,
            },
            WritePhase::Persisting => match event {
                WriteEvent::PersistFailed => Some(ErrorKind::Persistence),
                _ => None,
            },
            WritePhase::Broadcasting => match event {
                WriteEvent::SendFailed => Some(ErrorKind::OutboundClosed),
                _ => None,
            },
            WritePhase::Emitting => match event {
                WriteEvent::VoteFailed => Some(ErrorKind::VoteEmission),
                _ => None,
            },
            _ => None,
        }
    }

    fn move_to(&mut self, phase: WritePhase)
        ensures
            final(self)@ == old(self)@.moved_to(phase),
    {
        self.entries = Vec::new();
        self.phase = phase;
    }

    /// The first half of a turn: takes the outcome of receiving, persisting,
    /// converting or enqueueing, and says what to do next. An event that
    /// cannot come in the present phase is refused with `None`, and the stage
    /// stays as it is.
    pub fn write_and_send_entries<B>(&mut self, event: WriteEvent<B, E>) -> (action: Option<
        WriteAction<B, E>,
    >)
        ensures
            match write_and_send_next(old(self)@, event@) {
                Some((state, act)) => final(self)@ == state && action is Some
                    && action.unwrap()@ == act,
                None => final(self)@ == old(self)@ && action is None,
            },
            old(self)@.wf() ==> final(self)@.wf(),
    {
        match self.phase {
            WritePhase::Idle => match event {
                WriteEvent::Received(entries) => {
                    self.entries = entries;
                    self.phase = WritePhase::Persisting;
                    Some(WriteAction::VoteAndPersist)
                },
                WriteEvent::Empty => {
                    self.move_to(WritePhase::Voting);
                    Some(WriteAction::ReadClock)
                },
                WriteEvent::Closed => {
                    self.move_to(WritePhase::Stopped);
                    Some(WriteAction::Exit)
                },
                _ => None,
            },
            WritePhase::Persisting => match event {
                WriteEvent::Persisted => {
                    let mut entries: Vec<E> = Vec::new();
                    core::mem::swap(&mut self.entries, &mut entries);
                    self.phase = WritePhase::Converting;
                    Some(WriteAction::Convert(entries))
                },
                WriteEvent::PersistFailed => {
                    self.move_to(WritePhase::Voting);
                    Some(WriteAction::Report(ErrorKind::Persistence))
                },
                _ => None,
            },
            WritePhase::Converting => match event {
                WriteEvent::Converted(blobs) => {
                    if blobs.len() > 0 {
                        self.move_to(WritePhase::Broadcasting);
                        Some(WriteAction::Broadcast(blobs))
                    } else {
                        self.move_to(WritePhase::Voting);
                        Some(WriteAction::ReadClock)
                    }
                },
                _ => None,
            },
            WritePhase::Broadcasting => match event {
                WriteEvent::Sent => {
                    self.move_to(WritePhase::Voting);
                    Some(WriteAction::ReadClock)
                },
                WriteEvent::SendFailed => {
                    self.move_to(WritePhase::Stopped);
                    Some(WriteAction::Exit)
                },
                _ => None,
            },
            _ => None,
        }
    }

    /// The second half of a turn: takes the clock's reading, or the outcome
    /// of emitting the vote, and says what to do next. A vote is emitted only
    /// when the minimum interval has elapsed since the last one that went out,
    /// and only a vote that went out counts as the last one. An event that
    /// cannot come in the present phase is refused with `None`, and the stage
    /// stays as it is.
    pub fn leader_vote<B>(&mut self, event: WriteEvent<B, E>) -> (action: Option<
        WriteAction<B, E>,
    >)
        ensures
            match leader_vote_next(old(self)@, event@) {
                Some((state, act)) => final(self)@ == state && action is Some
                    && action.unwrap()@ == act,
                None => final(self)@ == old(self)@ && action is None,
            },
            old(self)@.wf() ==> final(self)@.wf(),
    {
        match self.phase {
            WritePhase::Voting => match event {
                WriteEvent::Clock(now) => {
                    if self.limiter.is_due(now) {
                        self.move_to(WritePhase::Emitting);
                        self.vote_time = now;
                        Some(WriteAction::EmitVote)
                    } else {
                        self.move_to(WritePhase::Idle);
                        Some(WriteAction::Receive)
                    }
                },
                _ => None,
            },
            WritePhase::Emitting => match event {
                WriteEvent::VoteEmitted => {
                    self.move_to(WritePhase::Idle);
                    self.limiter.record(self.vote_time);
                    Some(WriteAction::Receive)
                },
                WriteEvent::VoteFailed => {
                    self.move_to(WritePhase::Idle);
                    Some(WriteAction::Report(ErrorKind::VoteEmission))
                },
                _ => None,
            },
            _ => None,
        }
    }

    /// Takes the outcome of the worker's last action, in either half of a
    /// turn, and says what to do next. An event that cannot come in the
    /// present phase is refused with `None`, and the stage stays as it is.
    pub fn step<B>(&mut self, event: WriteEvent<B, E>) -> (action: Option<WriteAction<B, E>>)
        ensures
            match write_next(old(self)@, event@) {
                Some((state, act)) => final(self)@ == state && action is Some
                    && action.unwrap()@ == act,
                None => final(self)@ == old(self)@ && action is None,
            },
            old(self)@.wf() ==> final(self)@.wf(),
    {
        match self.phase {
            WritePhase::Voting | WritePhase::Emitting => self.leader_vote(event),
            _ => self.write_and_send_entries(event),
        }
    }
}

/// The state reached and the actions given, one by one, when the stage in
/// state `s` is fed `events` in order. An event that is refused changes
/// nothing and gives no action.
pub open spec fn write_run<B, E>(s: WriteState<E>, events: Seq<WriteEventView<B, E>>) -> (
    WriteState<E>,
    Seq<WriteActionView<B, E>>,
)
    decreases events.len(),
{
    if events.len() == 0 {
        (s, Seq::empty())
    } else {
        let (reached, actions) = write_run(s, events.drop_last());
        match write_next(reached, events.last()) {
            Some((state, action)) => (state, actions.push(action)),
            None => (reached, actions),
        }
    }
}

proof fn lemma_write_run_push<B, E>(
    s: WriteState<E>,
    events: Seq<WriteEventView<B, E>>,
    event: WriteEventView<B, E>,
)
    ensures
        write_run(s, events.push(event)) == (match write_next(write_run(s, events).0, event) {
            Some((state, action)) => (state, write_run(s, events).1.push(action)),
            None => write_run(s, events),
        }),
{
    assert(events.push(event).drop_last() =~= events);
}

/// Whatever comes of receiving and writing, short of a closed channel, the
/// turn goes on to the leader's vote: after a timeout, after a failure to
/// persist, after entries that gave no blob, and after a broadcast, the stage
/// is about to vote with nothing in hand. The entries handed on for
/// conversion are those received, in their order, and the blobs handed on for
/// broadcast are those that conversion gave.
pub proof fn lemma_turn_reaches_vote<B, E>(s: WriteState<E>, entries: Seq<E>, blobs: Seq<B>)
    requires
        s.phase == WritePhase::Idle,
    ensures
        write_run::<B, E>(s, seq![WriteEventView::Empty]) == (
            s.moved_to(WritePhase::Voting),
            seq![WriteActionView::<B, E>::ReadClock],
        ),
        write_run::<B, E>(
            s,
            seq![WriteEventView::Received(entries), WriteEventView::PersistFailed],
        ) == (
            s.moved_to(WritePhase::Voting),
            seq![
                WriteActionView::<B, E>::VoteAndPersist,
                WriteActionView::Report(ErrorKind::Persistence),
            ],
        ),
        blobs.len() == 0 ==> write_run::<B, E>(
            s,
            seq![
                WriteEventView::Received(entries),
                WriteEventView::Persisted,
                WriteEventView::Converted(blobs),
            ],
        ) == (
            s.moved_to(WritePhase::Voting),
            seq![
                WriteActionView::<B, E>::VoteAndPersist,
                WriteActionView::Convert(entries),
                WriteActionView::ReadClock,
            ],
        ),
        blobs.len() > 0 ==> write_run::<B, E>(
            s,
            seq![
                WriteEventView::Received(entries),
                WriteEventView::Persisted,
                WriteEventView::Converted(blobs),
                WriteEventView::Sent,
            ],
        ) == (
            s.moved_to(WritePhase::Voting),
            seq![
                WriteActionView::<B, E>::VoteAndPersist,
                WriteActionView::Convert(entries),
                WriteActionView::Broadcast(blobs),
                WriteActionView::ReadClock,
            ],
        ),
{
    let none = Seq::<WriteEventView<B, E>>::empty();
    let received = WriteEventView::<B, E>::Received(entries);
    let converted = WriteEventView::<B, E>::Converted(blobs);
    assert(write_run(s, none) == (s, Seq::<WriteActionView<B, E>>::empty()));

    lemma_write_run_push(s, none, WriteEventView::Empty);
    assert(seq![WriteEventView::<B, E>::Empty] =~= none.push(WriteEventView::Empty));

    lemma_write_run_push(s, none, received);
    let e1 = none.push(received);
    lemma_write_run_push(s, e1, WriteEventView::PersistFailed);
    assert(seq![received, WriteEventView::PersistFailed] =~= e1.push(
        WriteEventView::PersistFailed,
    ));

    lemma_write_run_push(s, e1, WriteEventView::Persisted);
    let e2 = e1.push(WriteEventView::Persisted);
    lemma_write_run_push(s, e2, converted);
    let e3 = e2.push(converted);
    assert(seq![received, WriteEventView::Persisted, converted] =~= e3);
    if blobs.len() > 0 {
        lemma_write_run_push(s, e3, WriteEventView::Sent);
        assert(seq![received, WriteEventView::Persisted, converted, WriteEventView::Sent]
            =~= e3.push(WriteEventView::Sent));
    }
}

/// Whether the worker reports the vote's outcome as emitted or as failed.
pub open spec fn vote_outcome<B, E>(succeeded: bool) -> WriteEventView<B, E> {
    if succeeded {
        WriteEventView::VoteEmitted
    } else {
        WriteEventView::VoteFailed
    }
}

/// The second half of a turn is one attempt of the vote limiter: the stage
/// asks for a vote exactly when one is due at the clock's reading, the last
/// vote's time afterwards is what the limiter gives for that attempt, and the
/// stage is idle again whatever came of it.
pub proof fn lemma_vote_turn_is_one_attempt<B, E>(s: WriteState<E>, now: u64, succeeded: bool)
    requires
        s.phase == WritePhase::Voting,
    ensures
        ({
            let reached = write_run::<B, E>(
                s,
                seq![WriteEventView::Clock(now), vote_outcome(succeeded)],
            ).0;
            &&& reached.phase == WritePhase::Idle
            &&& reached.held.len() == 0
            &&& reached.limiter.min_interval == s.limiter.min_interval
            &&& reached.limiter.last_vote as int == last_vote_after(
                s.limiter.last_vote as int,
                s.limiter.min_interval as int,
                (Attempt { now: now as int, succeeded }),
            )
        }),
        (write_next::<B, E>(s, WriteEventView::Clock(now)) matches Some(
            (_, WriteActionView::EmitVote),
        )) <==> vote_due(s.limiter.last_vote as int, s.limiter.min_interval as int, now as int),
{
    let none = Seq::<WriteEventView<B, E>>::empty();
    assert(write_run(s, none) == (s, Seq::<WriteActionView<B, E>>::empty()));
    lemma_write_run_push(s, none, WriteEventView::Clock(now));
    let e1 = none.push(WriteEventView::Clock(now));
    lemma_write_run_push(s, e1, vote_outcome(succeeded));
    assert(seq![WriteEventView::<B, E>::Clock(now), vote_outcome(succeeded)] =~= e1.push(
        vote_outcome(succeeded),
    ));
}

/// The worker ends when it finds the entry channel closed while waiting for
/// entries, or the broadcast channel closed while enqueueing, and on nothing
/// else; once ended, the stage takes no further event.
pub proof fn lemma_write_exit<B, E>(s: WriteState<E>, event: WriteEventView<B, E>)
    ensures
        s.phase == WritePhase::Idle && event == WriteEventView::<B, E>::Closed ==> write_next(
            s,
            event,
        ) == Some((s.moved_to(WritePhase::Stopped), WriteActionView::<B, E>::Exit)),
        s.phase == WritePhase::Broadcasting && event == WriteEventView::<B, E>::SendFailed
            ==> write_next(s, event) == Some(
            (s.moved_to(WritePhase::Stopped), WriteActionView::<B, E>::Exit),
        ),
        (write_next(s, event) matches Some((state, action)) && (action
            == WriteActionView::<B, E>::Exit || state.phase == WritePhase::Stopped)) ==> (s.phase
            == WritePhase::Idle && event == WriteEventView::<B, E>::Closed) || (s.phase
            == WritePhase::Broadcasting && event == WriteEventView::<B, E>::SendFailed),
        s.phase == WritePhase::Stopped ==> write_next(s, event) is None,
{
}

/// Every step keeps the stage well formed.
pub proof fn lemma_write_next_wf<B, E>(s: WriteState<E>, event: WriteEventView<B, E>)
    requires
        s.wf(),
    ensures
        write_next(s, event) matches Some((state, _)) ==> state.wf(),
{
}

/// The first half of a turn never touches the time of the last vote: between
/// two attempts at a vote the limiter stays as the earlier one left it.
pub proof fn lemma_writing_leaves_limiter<B, E>(s: WriteState<E>, event: WriteEventView<B, E>)
    ensures
        write_and_send_next(s, event) matches Some((state, _)) ==> state.limiter == s.limiter,
{
}

/// The clock's latest reading among `events`, or `start` where there is none.
pub open spec fn latest_reading<B, E>(start: int, events: Seq<WriteEventView<B, E>>) -> int
    decreases events.len(),
{
    if events.len() == 0 {
        start
    } else {
        match events.last() {
            WriteEventView::Clock(now) => now as int,
            _ => latest_reading(start, events.drop_last()),
        }
    }
}

/// Whether the clock's readings among `events` begin at `start` or later and
/// never run backwards.
pub open spec fn clock_steady<B, E>(start: int, events: Seq<WriteEventView<B, E>>) -> bool
    decreases events.len(),
{
    events.len() == 0 || {
        &&& clock_steady(start, events.drop_last())
        &&& events.last() matches WriteEventView::Clock(now) ==> latest_reading(
            start,
            events.drop_last(),
        ) <= now
    }
}

/// How many of the leader's votes go out while the stage in state `s` is fed
/// `events`: the reports of an emitted vote that the stage takes.
pub open spec fn votes_out<B, E>(s: WriteState<E>, events: Seq<WriteEventView<B, E>>) -> nat
    decreases events.len(),
{
    if events.len() == 0 {
        0
    } else {
        let before = votes_out(s, events.drop_last());
        if write_run(s, events.drop_last()).0.phase == WritePhase::Emitting && events.last()
            == WriteEventView::<B, E>::VoteEmitted {
            before + 1
        } else {
            before
        }
    }
}

proof fn lemma_votes_spaced_in_run<B, E>(
    start: int,
    s: WriteState<E>,
    events: Seq<WriteEventView<B, E>>,
)
    requires
        s.phase != WritePhase::Emitting,
        s.limiter.min_interval > 0,
        clock_steady(start, events),
    ensures
        ({
            let reached = write_run(s, events).0;
            let n = votes_out(s, events);
            let latest = latest_reading(start, events);
            let interval = s.limiter.min_interval as int;
            &&& reached.limiter.min_interval == s.limiter.min_interval
            &&& start <= latest
            &&& n > 0 ==> start + (n - 1) * interval <= reached.limiter.last_vote <= latest
            &&& reached.phase == WritePhase::Emitting ==> {
                &&& reached.vote_time - reached.limiter.last_vote >= interval
                &&& start <= reached.vote_time <= latest
            }
        }),
    decreases events.len(),
{
    if events.len() > 0 {
        let before = events.drop_last();
        lemma_votes_spaced_in_run(start, s, before);
        let reached = write_run(s, before).0;
        let n = votes_out(s, before);
        let interval = s.limiter.min_interval as int;
        if reached.phase == WritePhase::Emitting && events.last()
            == WriteEventView::<B, E>::VoteEmitted {
            if n > 0 {
                assert(start + n * interval <= reached.vote_time) by (nonlinear_arith)
                    requires
                        start + (n - 1) * interval <= reached.limiter.last_vote,
                        reached.vote_time - reached.limiter.last_vote >= interval,
                {}
            } else {
                assert((1 - 1) * interval == 0) by (nonlinear_arith);
            }
        }
    } else {
        assert(write_run(s, events).0 == s);
    }
}

/// However fast entries arrive and however often the loop turns, the
/// leader's votes leave at a bounded rate: over any events fed to a stage
/// that is not in the middle of a vote, on a clock that does not run
/// backwards, the votes that go out number at most the time between `start`
/// and the clock's latest reading, divided by the minimum interval, plus one.
pub proof fn lemma_stage_vote_rate_bounded<B, E>(
    start: int,
    s: WriteState<E>,
    events: Seq<WriteEventView<B, E>>,
)
    requires
        s.phase != WritePhase::Emitting,
        s.limiter.min_interval > 0,
        clock_steady(start, events),
    ensures
        votes_out(s, events) * s.limiter.min_interval <= (latest_reading(start, events) - start)
            + s.limiter.min_interval,
        votes_out(s, events) <= (latest_reading(start, events) - start) / (
        s.limiter.min_interval as int) + 1,
{
    lemma_votes_spaced_in_run(start, s, events);
    let n: int = votes_out(s, events) as int;
    let elapsed = latest_reading(start, events) - start;
    let interval = s.limiter.min_interval as int;
    if n > 0 {
        assert(n * interval <= elapsed + interval) by (nonlinear_arith)
            requires
                (n - 1) * interval <= elapsed,
        {}
        assert(n - 1 <= elapsed / interval) by (nonlinear_arith)
            requires
                (n - 1) * interval <= elapsed,
                interval > 0,
        {}
    } else {
        assert(0 * interval == 0) by (nonlinear_arith);
        assert(0 <= elapsed / interval) by (nonlinear_arith)
            requires
                elapsed >= 0,
                interval > 0,
        {}
    }
}

/// Whether `event` is what a worker whose entry channel is closed can report
/// in state `s`: the receive finds the channel closed, and the other work
/// ends one way or the other.
pub open spec fn reported_when_closed<B, E>(s: WriteState<E>, event: WriteEventView<B, E>) -> bool {
    match s.phase {
        WritePhase::Idle => event == WriteEventView::<B, E>::Closed,
        WritePhase::Persisting => event is Persisted || event is PersistFailed,
        WritePhase::Converting => event is Converted,
        WritePhase::Broadcasting => event is Sent || event is SendFailed,
        WritePhase::Voting => event is Clock,
        WritePhase::Emitting => event is VoteEmitted || event is VoteFailed,
        WritePhase::Stopped => false,
    }
}

/// The most steps that a worker in this phase still takes once its entry
/// channel is closed.
pub open spec fn write_steps_left(phase: WritePhase) -> nat {
    match phase {
        WritePhase::Stopped => 0,
        WritePhase::Idle => 1,
        WritePhase::Emitting => 2,
        WritePhase::Voting => 3,
        WritePhase::Broadcasting => 4,
        WritePhase::Converting => 5,
        WritePhase::Persisting => 6,
    }
}

/// Once the entry channel is closed the worker ends: every step is taken and
/// leaves fewer steps to go, so the turn in hand is finished, the next
/// receive finds the channel closed, and the stage has stopped.
pub proof fn lemma_closed_channel_ends_write<B, E>(s: WriteState<E>, event: WriteEventView<B, E>)
    requires
        reported_when_closed(s, event),
    ensures
        write_next(s, event) matches Some((state, _)) && write_steps_left(state.phase)
            < write_steps_left(s.phase),
        write_steps_left(s.phase) <= 6,
        write_steps_left(s.phase) == 0 <==> s.phase == WritePhase::Stopped,
{
}

/// The stage treats each failure as the policy table says: after one to be
/// retried the turn goes on to the vote as if nothing had happened, on a
/// terminal one the worker ends, and one to be logged is reported and the
/// worker goes on. Nothing but a failure ends the worker or is reported.
pub proof fn lemma_write_follows_policy<B, E>(s: WriteState<E>, event: WriteEventView<B, E>)
    ensures
        match write_failure(s.phase, event) {
            Some(kind) => match policy_of(kind) {
                Policy::Retry => write_next(s, event) == Some(
                    (s.moved_to(WritePhase::Voting), WriteActionView::<B, E>::ReadClock),
                ),
                Policy::Terminate => write_next(s, event) == Some(
                    (s.moved_to(WritePhase::Stopped), WriteActionView::<B, E>::Exit),
                ),
                Policy::LogAndContinue => write_next(s, event) matches Some((state, action))
                    && action == WriteActionView::<B, E>::Report(kind) && state.phase
                    != WritePhase::Stopped,
            },
            None => !(write_next(s, event) matches Some((_, action)) && (action is Exit
                || action is Report)),
        },
{
}

} // verus!
