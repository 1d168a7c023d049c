//! The validator's replicate stage: blobs come in from the window, entries
//! are reconstructed from them, voted on and applied to the ledger state, and
//! the blobs' buffers go back to the pool.
//!
//! The stage is a state machine. Its worker does the outside work (receiving
//! from the channel, reconstructing, merging votes, applying, recycling) and
//! reports each outcome as an event; the stage answers with the next action.
//! `B` is a blob's buffer and `E` an entry: the stage hands them on unread.

use vstd::prelude::*;
use crate::error::{policy_of, ErrorKind, Policy};

verus! {

/// Where in one turn of its loop the stage is.
#[derive(Clone, Copy, Debug, PartialEq, Eq, Structural)]
pub enum ReplicatePhase {
    /// Waiting, for up to the receive timeout, for the first batch of a burst.
    Idle,
    /// Taking whatever further batches are already queued, without waiting.
    Draining,
    /// Entries are being reconstructed from the blobs held.
    Reconstructing,
    /// The reconstructed entries are being voted on and applied.
    Applying,
    /// The inbound channel is closed and the worker has ended.
    Stopped,
}

/// What the worker reports to the stage.
#[derive(Debug, PartialEq, Eq)]
pub enum ReplicateEvent<B, E> {
    /// A receive yielded a batch of blobs.
    Received(Vec<B>),
    /// A receive yielded nothing: the wait timed out, or nothing is queued.
    Empty,
    /// The inbound channel is closed.
    Closed,
    /// Reconstruction yielded these entries, in ledger order.
    Reconstructed(Vec<E>),
    /// Reconstruction failed.
    DecodeFailed,
    /// The ledger state took the entries.
    Applied,
    /// The ledger state refused the entries.
    ApplyFailed,
}

/// What the stage tells the worker to do next.
#[derive(Debug, PartialEq, Eq)]
pub enum ReplicateAction<B, E> {
    /// Wait on the inbound channel for up to `RECEIVE_TIMEOUT_MS`.
    Receive,
    /// Try the inbound channel once more without waiting.
    Drain,
    /// Reconstruct entries from the blobs the stage holds.
    Reconstruct,
    /// Derive votes from these entries and merge them into the gossip table
    /// under its write lock, count the entries' transactions, then apply the
    /// entries to the ledger state in the order given.
    VoteAndApply(Vec<E>),
    /// Return each of these buffers to the pool, then receive again.
    Release(Vec<B>),
    /// Log a failure of this kind, then receive again.
    Report(ErrorKind),
    /// End the worker's thread.
    Exit,
}

/// An event with its payload as a sequence.
#[verifier::ext_equal]
pub enum ReplicateEventView<B, E> {
    Received(Seq<B>),
    Empty,
    Closed,
    Reconstructed(Seq<E>),
    DecodeFailed,
    Applied,
    ApplyFailed,
}

/// An action with its payload as a sequence.
#[verifier::ext_equal]
pub enum ReplicateActionView<B, E> {
    Receive,
    Drain,
    Reconstruct,
    VoteAndApply(Seq<E>),
    Release(Seq<B>),
    Report(ErrorKind),
    Exit,
}

impl<B, E> View for ReplicateEvent<B, E> {
    type V = ReplicateEventView<B, E>;

    open spec fn view(&self) -> ReplicateEventView<B, E> {
        match *self {
            ReplicateEvent::Received(batch) => ReplicateEventView::Received(batch@),
            ReplicateEvent::Empty => ReplicateEventView::Empty,
            ReplicateEvent::Closed => ReplicateEventView::Closed,
            ReplicateEvent::Reconstructed(entries) => ReplicateEventView::Reconstructed(entries@),
            ReplicateEvent::DecodeFailed => ReplicateEventView::DecodeFailed,
            ReplicateEvent::Applied => ReplicateEventView::Applied,
            ReplicateEvent::ApplyFailed => ReplicateEventView::ApplyFailed,
        }
    }
}

impl<B, E> View for ReplicateAction<B, E> {
    type V = ReplicateActionView<B, E>;

    open spec fn view(&self) -> ReplicateActionView<B, E> {
        match *self {
            ReplicateAction::Receive => ReplicateActionView::Receive,
            ReplicateAction::Drain => ReplicateActionView::Drain,
            ReplicateAction::Reconstruct => ReplicateActionView::Reconstruct,
            ReplicateAction::VoteAndApply(entries) => ReplicateActionView::VoteAndApply(entries@),
            ReplicateAction::Release(buffers) => ReplicateActionView::Release(buffers@),
            ReplicateAction::Report(kind) => ReplicateActionView::Report(kind),
            ReplicateAction::Exit => ReplicateActionView::Exit,
        }
    }
}

/// The stage as contracts see it.
#[verifier::ext_equal]
pub struct ReplicateState<B> {
    pub phase: ReplicatePhase,
    /// The blobs of the burst in hand, in the order received.
    pub held: Seq<B>,
}

impl<B> ReplicateState<B> {
    /// The stage between two bursts, or ended, holds no blob.
    pub open spec fn wf(self) -> bool {
        (self.phase == ReplicatePhase::Idle || self.phase == ReplicatePhase::Stopped)
            ==> self.held.len() == 0
    }
}

/// The stage waiting for a burst.
pub open spec fn replicate_idle<B>() -> ReplicateState<B> {
    ReplicateState { phase: ReplicatePhase::Idle, held: Seq::empty() }
}

/// The stage's transition: the state and the action that follow `event` in
/// state `s`, or `None` where the event cannot come in that phase.
pub open spec fn replicate_next<B, E>(
    s: ReplicateState<B>,
    event: ReplicateEventView<B, E>,
) -> Option<(ReplicateState<B>, ReplicateActionView<B, E>)> {
    match (s.phase, event) {
        (ReplicatePhase::Idle, ReplicateEventView::Received(batch)) => Some(
            (
                ReplicateState { phase: ReplicatePhase::Draining, held: batch },
                ReplicateActionView::Drain,
            ),
        ),
        (ReplicatePhase::Idle, ReplicateEventView::Empty) => Some(
            (s, ReplicateActionView::Receive),
        ),
        (ReplicatePhase::Idle, ReplicateEventView::Closed) => Some(
            (
                ReplicateState { phase: ReplicatePhase::Stopped, held: Seq::empty() },
                ReplicateActionView::Exit,
            ),
        ),
        (ReplicatePhase::Draining, ReplicateEventView::Received(batch)) => Some(
            (
                ReplicateState { phase: ReplicatePhase::Draining, held: s.held + batch },
                ReplicateActionView::Drain,
            ),
        ),
        (ReplicatePhase::Draining, ReplicateEventView::Empty)
        | (ReplicatePhase::Draining, ReplicateEventView::Closed) => Some(
            (
                ReplicateState { phase: ReplicatePhase::Reconstructing, held: s.held },
                ReplicateActionView::Reconstruct,
            ),
        ),
        (ReplicatePhase::Reconstructing, ReplicateEventView::Reconstructed(entries)) => Some(
            (
                ReplicateState { phase: ReplicatePhase::Applying, held: s.held },
                ReplicateActionView::VoteAndApply(entries),
            ),
        ),
        (ReplicatePhase::Reconstructing, ReplicateEventView::DecodeFailed) => Some(
            (replicate_idle(), ReplicateActionView::Report(ErrorKind::Decode)),
        ),
        (ReplicatePhase::Applying, ReplicateEventView::Applied) => Some(
            (replicate_idle(), ReplicateActionView::Release(s.held)),
        ),
        (ReplicatePhase::Applying, ReplicateEventView::ApplyFailed) => Some(
            (replicate_idle(), ReplicateActionView::Report(ErrorKind::StateApply)),
        ),
        _ => None,
    }
}

/// The kind of failure that `event` reports in `phase`, if it reports one: a
/// wait for a burst that timed out or found the channel closed, a failed
/// reconstruction, a failed application. An empty or closed channel met while
/// draining is no failure: it ends the burst.
pub open spec fn replicate_failure<B, E>(
    phase: ReplicatePhase,
    event: ReplicateEventView<B, E>,
) -> Option<ErrorKind> {
    match (phase, event) {
        (ReplicatePhase::Idle, ReplicateEventView::Empty) => Some(ErrorKind::Timeout),
        (ReplicatePhase::Idle, ReplicateEventView::Closed) => Some(ErrorKind::Disconnected),
        (ReplicatePhase::Reconstructing, ReplicateEventView::DecodeFailed) => Some(
            ErrorKind::Decode,
        ),
        (ReplicatePhase::Applying, ReplicateEventView::ApplyFailed) => Some(ErrorKind::StateApply),
        _ => None,
    }
}

/// The replicate stage of a validator.
pub struct ReplicateStage<B> {
    phase: ReplicatePhase,
    blobs: Vec<B>,
}

impl<B> View for ReplicateStage<B> {
    type V = ReplicateState<B>;

    closed spec fn view(&self) -> ReplicateState<B> {
        ReplicateState { phase: self.phase, held: self.blobs@ }
    }
}

impl<B> ReplicateStage<B> {
    /// A stage that waits for its first burst.
    pub fn new() -> (stage: Self)
        ensures
            stage@ == replicate_idle::<B>(),
            stage@.wf(),
    {
        ReplicateStage { phase: ReplicatePhase::Idle, blobs: Vec::new() }
    }

    /// The phase the stage is in.
    pub fn phase(&self) -> (phase: ReplicatePhase)
        ensures
            phase == self@.phase,
    {
        self.phase
    }

    /// The blobs of the burst in hand, in the order received: what
    /// reconstruction works on.
    pub fn held(&self) -> (blobs: &Vec<B>)
        ensures
            blobs@ == self@.held,
    {
        &self.blobs
    }

    /// Whether the worker has ended.
    pub fn is_stopped(&self) -> (stopped: bool)
        ensures
            stopped == (self@.phase == ReplicatePhase::Stopped),
    {
        match self.phase {
            ReplicatePhase::Stopped => true,
            _ => false,
        }
    }

    /// The kind of failure that `event` reports to the stage as it stands, if
    /// it reports one.
    pub fn failure_of<E>(&self, event: &ReplicateEvent<B, E>) -> (kind: Option<ErrorKind>)
        ensures
            kind == replicate_failure(self@.phase, event@),
    {
        match self.phase {
            ReplicatePhase::Idle => match event {
                ReplicateEvent::Empty => Some(ErrorKind::Timeout),
                ReplicateEvent::Closed => Some(ErrorKind::Disconnected),
                _ => None,
            },
            ReplicatePhase::Reconstructing => match event {
                ReplicateEvent::DecodeFailed => Some(ErrorKind::Decode),
                _ => None,
            },
            ReplicatePhase::Applying => match event {
                ReplicateEvent::ApplyFailed => Some(ErrorKind::StateApply),
                _ => None,
            },
            _ => None,
        }
    }

    /// Takes the outcome of the worker's last action and says what to do
    /// next. An event that cannot come in the present phase is refused with
    /// `None`, and the stage stays as it is.
    pub fn step<E>(&mut self, event: ReplicateEvent<B, E>) -> (action: Option<
        ReplicateAction<B, E>,
    >)
        ensures
            match replicate_next(old(self)@, event@) {
                Some((state, act)) => final(self)@ == state && action is Some
                    && action.unwrap()@ == act,
                None => final(self)@ == old(self)@ && action is None,
            },
            old(self)@.wf() ==> final(self)@.wf(),
    {
        match self.phase {
            ReplicatePhase::Idle => match event {
                ReplicateEvent::Received(batch) => {
                    self.blobs = batch;
                    self.phase = ReplicatePhase::Draining;
                    Some(ReplicateAction::Drain)
                },
                ReplicateEvent::Empty => Some(ReplicateAction::Receive),
                ReplicateEvent::Closed => {
                    self.blobs = Vec::new();
                    self.phase = ReplicatePhase::Stopped;
                    Some(ReplicateAction::Exit)
                },
                _ => None,
            },
            ReplicatePhase::Draining => match event {
                ReplicateEvent::Received(batch) => {
                    let mut more = batch;
                    self.blobs.append(&mut more);
                    Some(ReplicateAction::Drain)
                },
                ReplicateEvent::Empty | ReplicateEvent::Closed => {
                    self.phase = ReplicatePhase::Reconstructing;
                    Some(ReplicateAction::Reconstruct)
                },
                _ => None,
            },
            ReplicatePhase::Reconstructing => match event {
                ReplicateEvent::Reconstructed(entries) => {
                    self.phase = ReplicatePhase::Applying;
                    Some(ReplicateAction::VoteAndApply(entries))
                },
                ReplicateEvent::DecodeFailed => {
                    self.blobs = Vec::new();
                    self.phase = ReplicatePhase::Idle;
                    Some(ReplicateAction::Report(ErrorKind::Decode))
                },
                _ => None,
            },
            ReplicatePhase::Applying => match event {
                ReplicateEvent::Applied => {
                    let mut consumed: Vec<B> = Vec::new();
                    core::mem::swap(&mut self.blobs, &mut consumed);
                    self.phase = ReplicatePhase::Idle;
                    Some(ReplicateAction::Release(consumed))
                },
                ReplicateEvent::ApplyFailed => {
                    self.blobs = Vec::new();
                    self.phase = ReplicatePhase::Idle;
                    Some(ReplicateAction::Report(ErrorKind::StateApply))
                },
                _ => None,
            },
            ReplicatePhase::Stopped => None,
        }
    }
}

/// The sum of the transactions that a run of entries holds, given how many
/// each entry holds.
pub open spec fn transactions_in(counts: Seq<usize>) -> nat
    decreases counts.len(),
{
    if counts.len() == 0 {
        0
    } else {
        transactions_in(counts.drop_last()) + counts.last() as nat
    }
}

/// The value of the stage's transaction counter for one burst: the number of
/// transactions in its entries, `counts` giving the number in each. A sum that
/// a `usize` cannot hold is recorded as the greatest `usize`.
pub fn transaction_total(counts: &Vec<usize>) -> (total: usize)
    ensures
        transactions_in(counts@) <= usize::MAX ==> total == transactions_in(counts@),
        transactions_in(counts@) > usize::MAX ==> total == usize::MAX,
{
    let mut total: usize = 0;
    let mut i: usize = 0;
    assert(counts@.take(0) =~= Seq::<usize>::empty());
    while i < counts.len()
        invariant
            i <= counts.len(),
            transactions_in(counts@.take(i as int)) <= usize::MAX ==> total == transactions_in(
                counts@.take(i as int),
            ),
            transactions_in(counts@.take(i as int)) > usize::MAX ==> total == usize::MAX,
        decreases counts.len() - i,
    {
        proof {
            assert(counts@.take(i + 1).drop_last() =~= counts@.take(i as int));
            assert(counts@.take(i + 1).last() == counts@[i as int]);
        }
        total = total.saturating_add(counts[i]);
        i += 1;
    }
    assert(counts@.take(counts.len() as int) =~= counts@);
    total
}

/// The blobs of `batches` laid end to end, batch after batch.
pub open spec fn coalesced<B>(batches: Seq<Seq<B>>) -> Seq<B>
    decreases batches.len(),
{
    if batches.len() == 0 {
        Seq::empty()
    } else {
        coalesced(batches.drop_last()) + batches.last()
    }
}

/// Where in `coalesced(batches)` the batch at position `i` begins.
pub open spec fn batch_start<B>(batches: Seq<Seq<B>>, i: int) -> nat {
    coalesced(batches.take(i)).len()
}

proof fn lemma_batch_start_next<B>(batches: Seq<Seq<B>>, i: int)
    requires
        0 <= i < batches.len(),
    ensures
        batch_start(batches, i + 1) == batch_start(batches, i) + batches[i].len(),
{
    assert(batches.take(i + 1).drop_last() =~= batches.take(i));
    assert(batches.take(i + 1).last() == batches[i]);
}

proof fn lemma_batch_start_grows<B>(batches: Seq<Seq<B>>, i: int, j: int)
    requires
        0 <= i <= j <= batches.len(),
    ensures
        batch_start(batches, i) <= batch_start(batches, j),
    decreases j - i,
{
    if i < j {
        lemma_batch_start_grows(batches, i, j - 1);
        lemma_batch_start_next(batches, j - 1);
    }
}

proof fn lemma_batch_in_place<B>(batches: Seq<Seq<B>>, i: int, k: int)
    requires
        0 <= i < batches.len(),
        0 <= k < batches[i].len(),
    ensures
        batch_start(batches, i) + k < coalesced(batches).len(),
        coalesced(batches)[batch_start(batches, i) + k] == batches[i][k],
    decreases batches.len(),
{
    let before = batches.drop_last();
    if i == batches.len() - 1 {
        assert(batches.take(i) =~= before);
    } else {
        lemma_batch_in_place(before, i, k);
        assert(before.take(i) =~= batches.take(i));
        assert(before[i] == batches[i]);
    }
}

/// Coalescing keeps the order of arrival: every blob is in the working set,
/// at its place within its batch, and the blobs of an earlier batch all stand
/// before those of a later one.
pub proof fn lemma_coalescing_keeps_order<B>(
    batches: Seq<Seq<B>>,
    i: int,
    k: int,
    j: int,
    m: int,
)
    requires
        0 <= i < j < batches.len(),
        0 <= k < batches[i].len(),
        0 <= m < batches[j].len(),
    ensures
        batch_start(batches, i) + k < batch_start(batches, j) + m,
        batch_start(batches, j) + m < coalesced(batches).len(),
        coalesced(batches)[batch_start(batches, i) + k] == batches[i][k],
        coalesced(batches)[batch_start(batches, j) + m] == batches[j][m],
{
    lemma_batch_in_place(batches, i, k);
    lemma_batch_in_place(batches, j, m);
    lemma_batch_start_next(batches, i);
    lemma_batch_start_grows(batches, i + 1, j);
}

/// The state reached and the actions given, one by one, when the stage in
/// state `s` is fed `events` in order. An event that is refused changes
/// nothing and gives no action.
pub open spec fn replicate_run<B, E>(
    s: ReplicateState<B>,
    events: Seq<ReplicateEventView<B, E>>,
) -> (ReplicateState<B>, Seq<ReplicateActionView<B, E>>)
    decreases events.len(),
{
    if events.len() == 0 {
        (s, Seq::empty())
    } else {
        let (reached, actions) = replicate_run(s, events.drop_last());
        match replicate_next(reached, events.last()) {
            Some((state, action)) => (state, actions.push(action)),
            None => (reached, actions),
        }
    }
}

/// The events of a burst: each batch of `batches` received in turn.
pub open spec fn burst_events<B, E>(batches: Seq<Seq<B>>) -> Seq<ReplicateEventView<B, E>> {
    Seq::new(batches.len(), |i: int| ReplicateEventView::Received(batches[i]))
}

/// `n` times the action `Drain`.
pub open spec fn drains<B, E>(n: nat) -> Seq<ReplicateActionView<B, E>> {
    Seq::new(n, |i: int| ReplicateActionView::Drain)
}

proof fn lemma_burst_is_held<B, E>(batches: Seq<Seq<B>>)
    requires
        batches.len() > 0,
    ensures
        replicate_run(replicate_idle(), burst_events::<B, E>(batches)) == (
            ReplicateState { phase: ReplicatePhase::Draining, held: coalesced(batches) },
            drains::<B, E>(batches.len()),
        ),
    decreases batches.len(),
{
    let events = burst_events::<B, E>(batches);
    let before = batches.drop_last();
    assert(events.drop_last() =~= burst_events::<B, E>(before));
    assert(events.last() == ReplicateEventView::<B, E>::Received(batches.last()));
    if before.len() == 0 {
        assert(coalesced(before) =~= Seq::<B>::empty());
        assert(coalesced(batches) =~= batches.last());
        assert(replicate_run(replicate_idle(), burst_events::<B, E>(before)) == (
            replicate_idle::<B>(),
            Seq::<ReplicateActionView<B, E>>::empty(),
        ));
        assert(drains::<B, E>(1) =~= Seq::empty().push(ReplicateActionView::Drain));
    } else {
        lemma_burst_is_held::<B, E>(before);
        assert(drains::<B, E>(batches.len()) =~= drains::<B, E>(before.len()).push(
            ReplicateActionView::Drain,
        ));
    }
}

/// However many batches are queued when the stage wakes, they are
/// reconstructed together and once: after the last of them the stage asks for
/// one reconstruction, and the blobs it holds for it are those of all the
/// batches in the order of arrival.
pub proof fn lemma_burst_reconstructed_once<B, E>(batches: Seq<Seq<B>>)
    requires
        batches.len() > 0,
    ensures
        replicate_run(
            replicate_idle(),
            burst_events::<B, E>(batches).push(ReplicateEventView::Empty),
        ) == (
            ReplicateState { phase: ReplicatePhase::Reconstructing, held: coalesced(batches) },
            drains::<B, E>(batches.len()).push(ReplicateActionView::Reconstruct),
        ),
{
    let burst = burst_events::<B, E>(batches);
    lemma_burst_is_held::<B, E>(batches);
    assert(burst.push(ReplicateEventView::Empty).drop_last() =~= burst);
}

/// A burst that is reconstructed and applied is handled in order and its
/// buffers go back once: the entries handed on for voting and applying are
/// those that reconstruction gave, in its order; the buffers released are
/// those of the burst, each once; and the stage is idle again with none left.
pub proof fn lemma_applied_burst_released<B, E>(batches: Seq<Seq<B>>, entries: Seq<E>)
    requires
        batches.len() > 0,
    ensures
        replicate_run(
            replicate_idle(),
            burst_events::<B, E>(batches).push(ReplicateEventView::Empty).push(
                ReplicateEventView::Reconstructed(entries),
            ).push(ReplicateEventView::Applied),
        ) == (
            replicate_idle::<B>(),
            drains::<B, E>(batches.len()).push(ReplicateActionView::Reconstruct).push(
                ReplicateActionView::VoteAndApply(entries),
            ).push(ReplicateActionView::Release(coalesced(batches))),
        ),
{
    let woken = burst_events::<B, E>(batches).push(ReplicateEventView::Empty);
    let rebuilt = woken.push(ReplicateEventView::Reconstructed(entries));
    lemma_burst_reconstructed_once::<B, E>(batches);
    assert(rebuilt.drop_last() =~= woken);
    assert(replicate_run(replicate_idle(), rebuilt) == (
        ReplicateState { phase: ReplicatePhase::Applying, held: coalesced(batches) },
        drains::<B, E>(batches.len()).push(ReplicateActionView::Reconstruct).push(
            ReplicateActionView::VoteAndApply(entries),
        ),
    ));
    assert(rebuilt.push(ReplicateEventView::Applied).drop_last() =~= rebuilt);
}

/// A burst whose reconstruction or application fails releases nothing: the
/// failure is reported, the stage is idle again, and the burst's buffers are
/// gone from it without having been handed back.
pub proof fn lemma_failed_burst_not_released<B, E>(s: ReplicateState<B>)
    ensures
        s.phase == ReplicatePhase::Reconstructing ==> replicate_next::<B, E>(
            s,
            ReplicateEventView::DecodeFailed,
        ) == Some(
            (replicate_idle::<B>(), ReplicateActionView::<B, E>::Report(ErrorKind::Decode)),
        ),
        s.phase == ReplicatePhase::Applying ==> replicate_next::<B, E>(
            s,
            ReplicateEventView::ApplyFailed,
        ) == Some(
            (replicate_idle::<B>(), ReplicateActionView::<B, E>::Report(ErrorKind::StateApply)),
        ),
{
}

/// Buffers are released only when a burst has been applied, all of them
/// together, and the stage keeps none of them: no later step can release one
/// of them again.
pub proof fn lemma_release_only_once<B, E>(
    s: ReplicateState<B>,
    event: ReplicateEventView<B, E>,
)
    ensures
        match replicate_next(s, event) {
            Some((state, ReplicateActionView::Release(buffers))) => {
                &&& s.phase == ReplicatePhase::Applying
                &&& event == ReplicateEventView::<B, E>::Applied
                &&& buffers == s.held
                &&& state == replicate_idle::<B>()
            },
            _ => true,
        },
{
}

/// Every step keeps the stage well formed.
pub proof fn lemma_replicate_next_wf<B, E>(s: ReplicateState<B>, event: ReplicateEventView<B, E>)
    requires
        s.wf(),
    ensures
        replicate_next(s, event) matches Some((state, _)) ==> state.wf(),
{
}

/// The worker ends when, and only when, it finds the inbound channel closed
/// while waiting for a burst; once ended, the stage takes no further event.
pub proof fn lemma_replicate_exit<B, E>(s: ReplicateState<B>, event: ReplicateEventView<B, E>)
    ensures
        s.phase == ReplicatePhase::Idle && event == ReplicateEventView::<B, E>::Closed
            ==> replicate_next(s, event) == Some(
            (
                ReplicateState::<B> { phase: ReplicatePhase::Stopped, held: Seq::empty() },
                ReplicateActionView::<B, E>::Exit,
            ),
        ),
        (replicate_next(s, event) matches Some((_, ReplicateActionView::Exit))) ==> s.phase
            == ReplicatePhase::Idle && event == ReplicateEventView::<B, E>::Closed,
        (replicate_next(s, event) matches Some((state, _)) && state.phase
            == ReplicatePhase::Stopped) ==> s.phase == ReplicatePhase::Idle && event
            == ReplicateEventView::<B, E>::Closed,
        s.phase == ReplicatePhase::Stopped ==> replicate_next(s, event) is None,
{
}

/// Entries are handed on for voting and applying only as reconstruction gave
/// them: the same entries in the same order, and only on its report.
pub proof fn lemma_applied_as_reconstructed<B, E>(
    s: ReplicateState<B>,
    event: ReplicateEventView<B, E>,
)
    ensures
        replicate_next(s, event) matches Some((_, ReplicateActionView::VoteAndApply(entries)))
            ==> s.phase == ReplicatePhase::Reconstructing && event
            == ReplicateEventView::<B, E>::Reconstructed(entries),
        s.phase == ReplicatePhase::Reconstructing ==> forall|entries: Seq<E>|
            #[trigger] replicate_next(s, ReplicateEventView::<B, E>::Reconstructed(entries))
                == Some(
                (
                    ReplicateState { phase: ReplicatePhase::Applying, held: s.held },
                    ReplicateActionView::<B, E>::VoteAndApply(entries),
                ),
            ),
{
}

/// The buffers that the stage in state `s` takes in at `event`.
pub open spec fn taken_at<B, E>(s: ReplicateState<B>, event: ReplicateEventView<B, E>) -> Seq<B> {
    match (replicate_next(s, event), event) {
        (Some(_), ReplicateEventView::Received(batch)) => batch,
        _ => Seq::empty(),
    }
}

/// The buffers that the stage in state `s` hands back for release at `event`.
pub open spec fn released_at<B, E>(s: ReplicateState<B>, event: ReplicateEventView<B, E>) -> Seq<
    B,
> {
    match replicate_next(s, event) {
        Some((_, ReplicateActionView::Release(buffers))) => buffers,
        _ => Seq::empty(),
    }
}

/// All buffers taken in while the stage in state `s` is fed `events`, in order.
pub open spec fn taken_in<B, E>(s: ReplicateState<B>, events: Seq<ReplicateEventView<B, E>>) -> Seq<
    B,
>
    decreases events.len(),
{
    if events.len() == 0 {
        Seq::empty()
    } else {
        taken_in(s, events.drop_last()) + taken_at(
            replicate_run(s, events.drop_last()).0,
            events.last(),
        )
    }
}

/// All buffers handed back for release while the stage in state `s` is fed
/// `events`, in order.
pub open spec fn given_back<B, E>(
    s: ReplicateState<B>,
    events: Seq<ReplicateEventView<B, E>>,
) -> Seq<B>
    decreases events.len(),
{
    if events.len() == 0 {
        Seq::empty()
    } else {
        given_back(s, events.drop_last()) + released_at(
            replicate_run(s, events.drop_last()).0,
            events.last(),
        )
    }
}

/// Whether no reconstruction and no application fails among `events`.
pub open spec fn without_failure<B, E>(events: Seq<ReplicateEventView<B, E>>) -> bool {
    forall|i: int|
        0 <= i < events.len() ==> events[i] != ReplicateEventView::<B, E>::DecodeFailed
            && events[i] != ReplicateEventView::<B, E>::ApplyFailed
}

/// Every run keeps the stage well formed.
pub proof fn lemma_replicate_run_wf<B, E>(
    s: ReplicateState<B>,
    events: Seq<ReplicateEventView<B, E>>,
)
    requires
        s.wf(),
    ensures
        replicate_run(s, events).0.wf(),
    decreases events.len(),
{
    if events.len() > 0 {
        lemma_replicate_run_wf(s, events.drop_last());
    }
}

/// Pool discipline: over any run in which nothing fails, whatever events come
/// and in whatever order, the buffers taken in are exactly those handed back
/// for release followed by those still in hand, in the order of arrival. So
/// each buffer of an applied burst is released once, none is released twice,
/// and none is released that was not taken in.
pub proof fn lemma_buffers_conserved<B, E>(
    s: ReplicateState<B>,
    events: Seq<ReplicateEventView<B, E>>,
)
    requires
        s.wf(),
        without_failure(events),
    ensures
        s.held + taken_in(s, events) == given_back(s, events) + replicate_run(s, events).0.held,
    decreases events.len(),
{
    if events.len() == 0 {
        assert(s.held + Seq::<B>::empty() =~= Seq::<B>::empty() + s.held);
    } else {
        let before = events.drop_last();
        assert(without_failure(before)) by {
            assert forall|i: int| 0 <= i < before.len() implies before[i]
                != ReplicateEventView::<B, E>::DecodeFailed && before[i]
                != ReplicateEventView::<B, E>::ApplyFailed by {
                assert(before[i] == events[i]);
            }
        }
        lemma_buffers_conserved(s, before);
        lemma_replicate_run_wf(s, before);
        let reached = replicate_run(s, before).0;
        let event = events.last();
        assert(event == events[events.len() - 1]);
        let taken = taken_in(s, before);
        let given = given_back(s, before);
        assert(s.held + taken == given + reached.held);
        assert(s.held + (taken + taken_at(reached, event)) =~= (s.held + taken) + taken_at(
            reached,
            event,
        ));
        assert((given + reached.held) + taken_at(reached, event) =~= (given + released_at(
            reached,
            event,
        )) + replicate_run(s, events).0.held);
    }
}

/// The buffers that the stage in state `s` gives up at `event` without
/// handing them back: those of a burst that failed.
pub open spec fn abandoned_at<B, E>(s: ReplicateState<B>, event: ReplicateEventView<B, E>) -> Seq<
    B,
> {
    match replicate_next(s, event) {
        Some((_, ReplicateActionView::Report(_))) => s.held,
        _ => Seq::empty(),
    }
}

/// All buffers given up without release while the stage in state `s` is fed
/// `events`, in order.
pub open spec fn abandoned<B, E>(
    s: ReplicateState<B>,
    events: Seq<ReplicateEventView<B, E>>,
) -> Seq<B>
    decreases events.len(),
{
    if events.len() == 0 {
        Seq::empty()
    } else {
        abandoned(s, events.drop_last()) + abandoned_at(
            replicate_run(s, events.drop_last()).0,
            events.last(),
        )
    }
}

/// Over any run at all, failures included, every buffer taken in is in one
/// place and counted once: handed back for release, given up with a burst
/// that failed, or still in hand. So no buffer is ever released twice, and
/// the buffers of a failed burst are not released.
pub proof fn lemma_buffers_accounted<B, E>(
    s: ReplicateState<B>,
    events: Seq<ReplicateEventView<B, E>>,
)
    requires
        s.wf(),
    ensures
        (s.held + taken_in(s, events)).to_multiset() == given_back(s, events).to_multiset().add(
            abandoned(s, events).to_multiset(),
        ).add(replicate_run(s, events).0.held.to_multiset()),
    decreases events.len(),
{
    broadcast use vstd::multiset::group_multiset_axioms;

    let none = Seq::<B>::empty();
    assert(none.to_multiset() =~= vstd::multiset::Multiset::<B>::empty()) by {
        none.to_multiset_ensures();
    }
    if events.len() == 0 {
        assert(s.held + none =~= s.held);
        assert(s.held.to_multiset() =~= none.to_multiset().add(none.to_multiset()).add(
            s.held.to_multiset(),
        ));
    } else {
        let before = events.drop_last();
        lemma_buffers_accounted(s, before);
        lemma_replicate_run_wf(s, before);
        let reached = replicate_run(s, before).0;
        let after = replicate_run(s, events).0;
        let event = events.last();
        let taken = taken_in(s, before);
        let given = given_back(s, before);
        let lost = abandoned(s, before);
        let t = taken_at(reached, event);
        let g = released_at(reached, event);
        let a = abandoned_at(reached, event);
        vstd::seq_lib::lemma_multiset_commutative(s.held, taken);
        vstd::seq_lib::lemma_multiset_commutative(s.held, taken + t);
        vstd::seq_lib::lemma_multiset_commutative(taken, t);
        vstd::seq_lib::lemma_multiset_commutative(given, g);
        vstd::seq_lib::lemma_multiset_commutative(lost, a);
        assert(reached.held.to_multiset().add(t.to_multiset()) =~= g.to_multiset().add(
            a.to_multiset(),
        ).add(after.held.to_multiset())) by {
            vstd::seq_lib::lemma_multiset_commutative(reached.held, t);
            if reached.held.len() == 0 {
                assert(reached.held =~= none);
            }
            assert(after.held =~= none || after.held =~= reached.held || after.held
                =~= reached.held + t || after.held =~= t);
        }
        assert(taken_in(s, events) == taken + t);
        assert(given_back(s, events) == given + g);
        assert(abandoned(s, events) == lost + a);
        let total = (s.held + (taken + t)).to_multiset();
        let parts = (given + g).to_multiset().add((lost + a).to_multiset()).add(
            after.held.to_multiset(),
        );
        assert forall|b: B| total.count(b) == parts.count(b) by {
            assert(s.held.to_multiset().add(taken.to_multiset()).count(b) == given.to_multiset().add(
                lost.to_multiset(),
            ).add(reached.held.to_multiset()).count(b));
            assert(reached.held.to_multiset().add(t.to_multiset()).count(b) == g.to_multiset().add(
                a.to_multiset(),
            ).add(after.held.to_multiset()).count(b));
        }
        assert(total =~= parts);
    }
}

/// Whether `event` is what a worker whose inbound channel is closed can
/// report in state `s`: every receive finds the channel closed, and the other
/// work ends one way or the other.
pub open spec fn reported_when_closed<B, E>(
    s: ReplicateState<B>,
    event: ReplicateEventView<B, E>,
) -> bool {
    match s.phase {
        ReplicatePhase::Idle | ReplicatePhase::Draining => event == ReplicateEventView::<
            B,
            E,
        >::Closed,
        ReplicatePhase::Reconstructing => event is Reconstructed || event is DecodeFailed,
        ReplicatePhase::Applying => event is Applied || event is ApplyFailed,
        ReplicatePhase::Stopped => false,
    }
}

/// The most steps that a worker in this phase still takes once its inbound
/// channel is closed.
pub open spec fn replicate_steps_left(phase: ReplicatePhase) -> nat {
    match phase {
        ReplicatePhase::Stopped => 0,
        ReplicatePhase::Idle => 1,
        ReplicatePhase::Applying => 2,
        ReplicatePhase::Reconstructing => 3,
        ReplicatePhase::Draining => 4,
    }
}

/// Once the inbound channel is closed the worker ends: every step is taken
/// and leaves fewer steps to go, so after at most four the stage has stopped,
/// without another wait on the channel but the one that finds it closed.
pub proof fn lemma_closed_channel_ends_replicate<B, E>(
    s: ReplicateState<B>,
    event: ReplicateEventView<B, E>,
)
    requires
        reported_when_closed(s, event),
    ensures
        replicate_next(s, event) matches Some((state, _)) && replicate_steps_left(state.phase)
            < replicate_steps_left(s.phase),
        replicate_steps_left(s.phase) <= 4,
        replicate_steps_left(s.phase) == 0 <==> s.phase == ReplicatePhase::Stopped,
{
}

/// The stage treats each failure as the policy table says: after one to be
/// retried it waits again as if nothing had happened, on a terminal one the
/// worker ends, and one to be logged is reported and the stage waits for the
/// next burst. Nothing but a failure ends the worker or is reported.
pub proof fn lemma_replicate_follows_policy<B, E>(
    s: ReplicateState<B>,
    event: ReplicateEventView<B, E>,
)
    ensures
        match replicate_failure(s.phase, event) {
            Some(kind) => match policy_of(kind) {
                Policy::Retry => replicate_next(s, event) == Some(
                    (s, ReplicateActionView::<B, E>::Receive),
                ),
                Policy::Terminate => replicate_next(s, event) == Some(
                    (
                        ReplicateState::<B> { phase: ReplicatePhase::Stopped, held: Seq::empty() },
                        ReplicateActionView::<B, E>::Exit,
                    ),
                ),
                Policy::LogAndContinue => replicate_next(s, event) == Some(
                    (replicate_idle::<B>(), ReplicateActionView::<B, E>::Report(kind)),
                ),
            },
            None => !(replicate_next(s, event) matches Some((_, action)) && (action is Exit
                || action is Report)),
        },
{
}

} // verus!
