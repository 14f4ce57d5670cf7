use crate::models::{OutboxMessages, Timestamp};
use crate::store::{completed, failed, has_id, pending_of, MemoryStore, StoreError};
use vstd::prelude::*;

verus! {

/// Why the broker did not accept a message (a rejection, a lost channel, a
/// protocol error, a timeout).
#[derive(Clone, Debug, PartialEq)]
pub struct PublishError {
    pub description: String,
}

/// Why a drain cycle as a whole failed: only reading the pending messages can
/// fail it.
#[derive(Clone, Debug, PartialEq)]
pub enum DrainError {
    Store(StoreError),
}

/// What the outside world reports back after performing an [`Action`].
#[derive(Debug)]
pub enum Event {
    /// The answer to [`Action::Fetch`].
    Fetched(Result<Vec<OutboxMessages>, StoreError>),
    /// The answer to [`Action::Publish`].
    Published(Result<(), PublishError>),
    /// The answer to [`Action::MarkComplete`] or [`Action::MarkFailed`]: whether
    /// the store took the update. It is observed only; it never changes what
    /// the cycle does next.
    Marked(bool),
}

/// What the drain cycle asks the outside world to do next.
#[derive(Debug, PartialEq)]
pub enum Action {
    /// Read all pending messages from the store.
    Fetch,
    /// Publish the fetched message at this position to the broker.
    Publish(usize),
    /// Record in the store that the fetched message at `index` was delivered.
    MarkComplete { index: usize, completed_at: Timestamp },
    /// Record in the store that delivering the fetched message at `index`
    /// failed with `error`.
    MarkFailed { index: usize, error: String, failed_at: Timestamp },
    /// The cycle is over, with this outcome.
    Finish(Result<(), DrainError>),
}

/// Where a drain cycle stands.
#[derive(Clone, Copy, Debug, PartialEq, Eq)]
pub enum Phase {
    /// Waiting for the pending messages.
    Fetching,
    /// Waiting for the outcome of publishing the current message.
    Publishing,
    /// Waiting for the store to record the current message's outcome.
    Marking,
    /// Finished.
    Done,
}

/// The state of a drain cycle: when it started, the messages fetched, the
/// position of the current one, and the phase.
pub struct CycleView {
    pub started: Timestamp,
    pub messages: Seq<OutboxMessages>,
    pub next: nat,
    pub phase: Phase,
}

impl CycleView {
    pub open spec fn initial(started: Timestamp) -> CycleView {
        CycleView { started, messages: Seq::empty(), next: 0, phase: Phase::Fetching }
    }

    pub open spec fn wf(self) -> bool {
        (self.phase is Publishing || self.phase is Marking) ==> self.next < self.messages.len()
    }

    /// Whether the cycle is waiting for `event`.
    pub open spec fn awaits(self, event: Event) -> bool {
        match self.phase {
            Phase::Fetching => event is Fetched,
            Phase::Publishing => event is Published,
            Phase::Marking => event is Marked,
            Phase::Done => false,
        }
    }

    /// Moves on from the current message, once its outcome is recorded.
    pub open spec fn advance(self) -> (CycleView, Action) {
        if self.next < self.messages.len() - 1 {
            (
                CycleView { next: self.next + 1, phase: Phase::Publishing, ..self },
                Action::Publish((self.next + 1) as usize),
            )
        } else {
            (CycleView { phase: Phase::Done, ..self }, Action::Finish(Ok(())))
        }
    }

    /// One step of the cycle: the state and action that follow `event`, with
    /// `at` the time at which the event was received. An outcome is recorded
    /// at `at`, or at the cycle's start where the clock reads earlier.
    pub open spec fn step(self, event: Event, at: Timestamp) -> (CycleView, Action) {
        match event {
            Event::Fetched(Err(e)) => (
                CycleView { phase: Phase::Done, ..self },
                Action::Finish(Err(DrainError::Store(e))),
            ),
            Event::Fetched(Ok(v)) => if v@.len() == 0 {
                (
                    CycleView { messages: v@, next: 0, phase: Phase::Done, ..self },
                    Action::Finish(Ok(())),
                )
            } else {
                (
                    CycleView { messages: v@, next: 0, phase: Phase::Publishing, ..self },
                    Action::Publish(0),
                )
            },
            Event::Published(Ok(())) => (
                CycleView { phase: Phase::Marking, ..self },
                Action::MarkComplete { index: self.next as usize, completed_at: stamp(self.started, at) },
            ),
            Event::Published(Err(e)) => (
                CycleView { phase: Phase::Marking, ..self },
                Action::MarkFailed {
                    index: self.next as usize,
                    error: e.description,
                    failed_at: stamp(self.started, at),
                },
            ),
            Event::Marked(_) => self.advance(),
        }
    }
}

/// The time at which an outcome reached at `at` is recorded by a cycle that
/// started at `started`: never earlier than the start.
pub open spec fn stamp(started: Timestamp, at: Timestamp) -> Timestamp {
    if at.not_before(started) {
        at
    } else {
        started
    }
}

/// One drain cycle: fetch the pending messages, then publish each in turn
/// and record its outcome, then finish. The cycle performs no I/O itself: it
/// names each operation as an [`Action`] and is told the result as an
/// [`Event`].
///
/// Messages are attempted one at a time, in the order fetched. A failed
/// publish is recorded with the broker's own error text and the message stays
/// pending; `attempts` is neither read nor raised, so a message that keeps
/// failing is tried again on every cycle. Only a failed fetch fails the cycle.
pub struct DrainCycle {
    started: Timestamp,
    messages: Vec<OutboxMessages>,
    next: usize,
    phase: Phase,
}

impl View for DrainCycle {
    type V = CycleView;

    closed spec fn view(&self) -> CycleView {
        CycleView {
            started: self.started,
            messages: self.messages@,
            next: self.next as nat,
            phase: self.phase,
        }
    }
}

impl DrainCycle {
    /// A cycle started at `started` that has not fetched yet, and its first
    /// action.
    pub fn new(started: Timestamp) -> (r: (DrainCycle, Action))
        ensures
            r.0@ == CycleView::initial(started),
            r.1 == Action::Fetch,
    {
        (
            DrainCycle { started, messages: Vec::new(), next: 0, phase: Phase::Fetching },
            Action::Fetch,
        )
    }

    /// When the cycle started.
    pub fn started(&self) -> (r: Timestamp)
        ensures
            r == self@.started,
    {
        self.started
    }

    pub fn phase(&self) -> (r: Phase)
        ensures
            r == self@.phase,
    {
        self.phase
    }

    /// The fetched message at `index`.
    pub fn message(&self, index: usize) -> (r: &OutboxMessages)
        requires
            index < self@.messages.len(),
        ensures
            *r == self@.messages[index as int],
    {
        &self.messages[index]
    }

    /// The number of messages fetched.
    pub fn len(&self) -> (r: usize)
        ensures
            r == self@.messages.len(),
    {
        self.messages.len()
    }

    fn stamp(&self, at: Timestamp) -> (r: Timestamp)
        ensures
            r == stamp(self@.started, at),
    {
        if at.is_not_before(&self.started) {
            at
        } else {
            self.started
        }
    }

    /// Whether the cycle is waiting for `event`.
    pub fn awaits(&self, event: &Event) -> (r: bool)
        ensures
            r == self@.awaits(*event),
    {
        match (self.phase, event) {
            (Phase::Fetching, Event::Fetched(_)) => true,
            (Phase::Publishing, Event::Published(_)) => true,
            (Phase::Marking, Event::Marked(_)) => true,
            _ => false,
        }
    }

    /// Takes `event`, received at `at`, and returns the next action.
    pub fn step(&mut self, event: Event, at: Timestamp) -> (r: Action)
        requires
            old(self)@.wf(),
            old(self)@.awaits(event),
        ensures
            final(self)@.wf(),
            (final(self)@, r) == old(self)@.step(event, at),
    {
        match event {
            Event::Fetched(Err(e)) => {
                self.phase = Phase::Done;
                Action::Finish(Err(DrainError::Store(e)))
            },
            Event::Fetched(Ok(v)) => {
                let empty = v.len() == 0;
                self.messages = v;
                self.next = 0;
                if empty {
                    self.phase = Phase::Done;
                    Action::Finish(Ok(()))
                } else {
                    self.phase = Phase::Publishing;
                    Action::Publish(0)
                }
            },
            Event::Published(Ok(())) => {
                self.phase = Phase::Marking;
                Action::MarkComplete { index: self.next, completed_at: self.stamp(at) }
            },
            Event::Published(Err(e)) => {
                self.phase = Phase::Marking;
                Action::MarkFailed { index: self.next, error: e.description, failed_at: self.stamp(at) }
            },
            Event::Marked(_) => {
                if self.next < self.messages.len() - 1 {
                    self.next = self.next + 1;
                    self.phase = Phase::Publishing;
                    Action::Publish(self.next)
                } else {
                    self.phase = Phase::Done;
                    Action::Finish(Ok(()))
                }
            },
        }
    }
}

/// Performs a store action of `cycle` on the in-memory store and returns
/// the event that reports its result; `None` for an action that is not the
/// store's (publishing, finishing), which leaves the store as it was.
pub fn answer_from_memory(store: &mut MemoryStore, cycle: &DrainCycle, action: &Action) -> (r:
    Option<Event>)
    requires
        old(store).wf(),
        action matches Action::MarkComplete { index, .. } ==> index < cycle@.messages.len(),
        action matches Action::MarkFailed { index, .. } ==> index < cycle@.messages.len(),
    ensures
        final(store).wf(),
        match *action {
            Action::Fetch => {
                &&& r matches Some(Event::Fetched(Ok(v))) && v@ == pending_of(old(store)@)
                &&& final(store)@ == old(store)@
            },
            Action::MarkComplete { index, completed_at } => {
                let id = cycle@.messages[index as int].uuid@;
                &&& r == Some(Event::Marked(has_id(old(store)@, id)))
                &&& final(store)@ == completed(old(store)@, id, completed_at)
            },
            Action::MarkFailed { index, error, failed_at } => {
                let id = cycle@.messages[index as int].uuid@;
                &&& r == Some(Event::Marked(has_id(old(store)@, id)))
                &&& final(store)@ == failed(old(store)@, id, error, failed_at)
            },
            _ => {
                &&& r is None
                &&& final(store)@ == old(store)@
            },
        },
{
    match action {
        Action::Fetch => Some(Event::Fetched(store.fetch_pending())),
        Action::MarkComplete { index, completed_at } => {
            let m = cycle.message(*index);
            Some(Event::Marked(store.mark_complete(&m.uuid, *completed_at)))
        },
        Action::MarkFailed { index, error, failed_at } => {
            let m = cycle.message(*index);
            Some(Event::Marked(store.mark_failed(&m.uuid, error, *failed_at)))
        },
        _ => None,
    }
}

/// The cycle run from state `s` on `events`, each with the time at which it
/// was received, for as long as it awaits them: the final state and the
/// actions it asked for.
pub open spec fn run(s: CycleView, events: Seq<(Event, Timestamp)>) -> (CycleView, Seq<Action>)
    decreases events.len(),
{
    if events.len() == 0 || !s.awaits(events[0].0) {
        (s, Seq::empty())
    } else {
        let (s1, a) = s.step(events[0].0, events[0].1);
        let (s2, rest) = run(s1, events.drop_first());
        (s2, seq![a] + rest)
    }
}

/// The action that records a publish outcome `outcome` of message `index`
/// reached at `at`.
pub open spec fn record(index: nat, outcome: Result<(), PublishError>, at: Timestamp) -> Action {
    match outcome {
        Ok(()) => Action::MarkComplete { index: index as usize, completed_at: at },
        Err(e) => Action::MarkFailed { index: index as usize, error: e.description, failed_at: at },
    }
}

/// The action after message `index - 1` of `n` is recorded.
pub open spec fn after(index: nat, n: nat) -> Action {
    if index < n {
        Action::Publish(index as usize)
    } else {
        Action::Finish(Ok(()))
    }
}

/// What the outside world reports for messages `k..` of a batch: each
/// publish outcome, received at its time, then the outcome of recording it.
pub open spec fn deliveries(
    outcomes: Seq<Result<(), PublishError>>,
    marks: Seq<bool>,
    times: Seq<Timestamp>,
    k: nat,
) -> Seq<(Event, Timestamp)>
    decreases outcomes.len() - k,
{
    if k >= outcomes.len() {
        Seq::empty()
    } else {
        seq![(Event::Published(outcomes[k as int]), times[k as int]), (Event::Marked(marks[k as int]), times[k as int])]
            + deliveries(outcomes, marks, times, k + 1)
    }
}

/// The actions that answer `deliveries(outcomes, marks, times, k)` in a
/// cycle that started at `started`.
pub open spec fn delivery_actions(
    outcomes: Seq<Result<(), PublishError>>,
    times: Seq<Timestamp>,
    started: Timestamp,
    k: nat,
) -> Seq<Action>
    decreases outcomes.len() - k,
{
    if k >= outcomes.len() {
        Seq::empty()
    } else {
        seq![
            record(k, outcomes[k as int], stamp(started, times[k as int])),
            after(k + 1, outcomes.len()),
        ] + delivery_actions(outcomes, times, started, k + 1)
    }
}

proof fn lemma_deliveries_from(
    s: CycleView,
    outcomes: Seq<Result<(), PublishError>>,
    marks: Seq<bool>,
    times: Seq<Timestamp>,
    k: nat,
)
    requires
        s.phase is Publishing,
        s.next == k,
        k < s.messages.len(),
        outcomes.len() == s.messages.len(),
        marks.len() == outcomes.len(),
        times.len() == outcomes.len(),
    ensures
        run(s, deliveries(outcomes, marks, times, k)).0.phase is Done,
        run(s, deliveries(outcomes, marks, times, k)).0.messages == s.messages,
        run(s, deliveries(outcomes, marks, times, k)).0.started == s.started,
        run(s, deliveries(outcomes, marks, times, k)).1 == delivery_actions(outcomes, times, s.started, k),
    decreases outcomes.len() - k,
{
    let n = outcomes.len();
    let ev = deliveries(outcomes, marks, times, k);
    let tail = deliveries(outcomes, marks, times, k + 1);
    let (s1, a1) = s.step(ev[0].0, ev[0].1);
    let rest1 = ev.drop_first();
    assert(rest1 =~= seq![(Event::Marked(marks[k as int]), times[k as int])] + tail);
    let (s2, a2) = s1.step(rest1[0].0, rest1[0].1);
    assert(rest1.drop_first() =~= tail);
    assert(a1 == record(k, outcomes[k as int], stamp(s.started, times[k as int])));
    assert(a2 == after(k + 1, n));
    if k + 1 < n {
        lemma_deliveries_from(s2, outcomes, marks, times, k + 1);
    } else {
        assert(tail.len() == 0);
    }
    assert(run(s1, rest1).1 =~= seq![a2] + run(s2, tail).1);
    assert(run(s, ev).1 =~= seq![a1, a2] + delivery_actions(outcomes, times, s.started, k + 1));
    assert(delivery_actions(outcomes, times, s.started, k) =~= seq![a1, a2] + delivery_actions(outcomes, times, s.started, k + 1));
}

/// A whole cycle: after a fetch that returned `v`, every message is
/// published once, in the order fetched, and its outcome recorded, as a
/// delivery when the broker accepted it and as a failure with the broker's
/// error when not; a failed publish does not stop the batch, and what the
/// store answers to a recording changes nothing; the cycle then finishes
/// successfully. Each outcome is recorded at the time it was received, or at
/// the start where the clock reads earlier. With no message fetched it
/// finishes at once.
pub proof fn lemma_cycle_delivers_every_message(
    v: Vec<OutboxMessages>,
    outcomes: Seq<Result<(), PublishError>>,
    marks: Seq<bool>,
    times: Seq<Timestamp>,
    started: Timestamp,
    fetched_at: Timestamp,
)
    requires
        outcomes.len() == v@.len(),
        marks.len() == v@.len(),
        times.len() == v@.len(),
    ensures
        ({
            let (s, actions) = run(
                CycleView::initial(started),
                seq![(Event::Fetched(Ok(v)), fetched_at)] + deliveries(outcomes, marks, times, 0),
            );
            &&& s.phase is Done
            &&& s.messages == v@
            &&& actions == seq![after(0, v@.len())] + delivery_actions(outcomes, times, started, 0)
        }),
{
    let s0 = CycleView::initial(started);
    let ev = seq![(Event::Fetched(Ok(v)), fetched_at)] + deliveries(outcomes, marks, times, 0);
    let (s1, a1) = s0.step(ev[0].0, ev[0].1);
    assert(ev.drop_first() =~= deliveries(outcomes, marks, times, 0));
    if v@.len() > 0 {
        lemma_deliveries_from(s1, outcomes, marks, times, 0);
    } else {
        assert(deliveries(outcomes, marks, times, 0).len() == 0);
        assert(delivery_actions(outcomes, times, started, 0).len() == 0);
    }
    assert(run(s0, ev).1 =~= seq![a1] + run(s1, ev.drop_first()).1);
    assert(seq![after(0, v@.len())] + delivery_actions(outcomes, times, started, 0) =~= seq![a1] + run(s1, ev.drop_first()).1);
}

/// A failed fetch ends the cycle with the store's error: nothing is
/// published or recorded, whatever is reported afterwards.
pub proof fn lemma_fetch_failure_ends_cycle(
    started: Timestamp,
    e: StoreError,
    at: Timestamp,
    later: Seq<(Event, Timestamp)>,
)
    ensures
        run(CycleView::initial(started), seq![(Event::Fetched(Err(e)), at)] + later).1
            == seq![Action::Finish(Err(DrainError::Store(e)))],
{
    let ev = seq![(Event::Fetched(Err(e)), at)] + later;
    let (s1, a1) = CycleView::initial(started).step(ev[0].0, ev[0].1);
    assert(ev.drop_first() =~= later);
    assert(run(s1, later).1 =~= Seq::<Action>::empty());
    assert(run(CycleView::initial(started), ev).1 =~= seq![a1]);
}

/// An empty fetch ends the cycle successfully: nothing is published or
/// recorded, whatever is reported afterwards.
pub proof fn lemma_empty_backlog_ends_cycle(
    started: Timestamp,
    v: Vec<OutboxMessages>,
    at: Timestamp,
    later: Seq<(Event, Timestamp)>,
)
    requires
        v@.len() == 0,
    ensures
        run(CycleView::initial(started), seq![(Event::Fetched(Ok(v)), at)] + later).1
            == seq![Action::Finish(Ok(()))],
{
    let ev = seq![(Event::Fetched(Ok(v)), at)] + later;
    let (s1, a1) = CycleView::initial(started).step(ev[0].0, ev[0].1);
    assert(ev.drop_first() =~= later);
    assert(run(s1, later).1 =~= Seq::<Action>::empty());
    assert(run(CycleView::initial(started), ev).1 =~= seq![a1]);
}

/// What the store answers to recording an outcome never changes what the
/// cycle does next: it goes on to the following message, or finishes
/// successfully after the last.
pub proof fn lemma_mark_outcome_ignored(s: CycleView, a: bool, b: bool, t: Timestamp, u: Timestamp)
    requires
        s.wf(),
        s.phase is Marking,
    ensures
        s.step(Event::Marked(a), t) == s.step(Event::Marked(b), u),
        s.step(Event::Marked(a), t).1 == after(s.next + 1, s.messages.len()),
{
}

/// An outcome is never recorded at a time earlier than the cycle's start,
/// whatever the clock reads when the outcome arrives.
pub proof fn lemma_recorded_not_before_start(s: CycleView, outcome: Result<(), PublishError>, at: Timestamp)
    requires
        s.wf(),
        s.phase is Publishing,
    ensures
        ({
            let (t, a) = s.step(Event::Published(outcome), at);
            &&& t.started == s.started
            &&& a matches Action::MarkComplete { completed_at, .. } ==> completed_at.not_before(s.started)
            &&& a matches Action::MarkFailed { failed_at, .. } ==> failed_at.not_before(s.started)
            &&& at.not_before(s.started) ==> (a matches Action::MarkComplete { completed_at, .. } ==> completed_at == at)
            &&& at.not_before(s.started) ==> (a matches Action::MarkFailed { failed_at, .. } ==> failed_at == at)
        }),
{
}

} // verus!
