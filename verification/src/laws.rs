//! What holds of the dispatcher as a whole.

use serde_json::Value;
use vstd::arithmetic::div_mod::lemma_add_mod_noop;
use vstd::prelude::*;

use crate::backend::{ErrorView, Outcome, OutcomeView, outcome_view};
use crate::flusher::{
    BatchReplyView, FleetView, PhaseView, StepView, all_told, batch_outcomes, requests_of,
    room, shutdown_refusal, window_left,
};
use crate::policy::RoutingPolicy;
use crate::queue::{
    Msg, PendingItem, has_shutdown, items_of, leading_items, lemma_items_of_add,
    lemma_items_of_leading, lemma_items_of_push, lemma_leading_items, lemma_leading_push,
};
use crate::submit::SubmitView;

verus! {

/// Something that happens to a dispatcher.
pub enum Event<T> {
    /// A submission is routed to the batch API.
    Submitted(PendingItem<T>),
    /// A shutdown is requested.
    ShutdownRequested,
    /// The flusher runs at a time.
    Polled(nat),
    /// The backend answers to the batch.
    Replied(BatchReplyView),
    /// A synchronous call comes back, successful or not.
    SyncDone { failed: bool },
    /// The flusher is given up.
    Abandoned,
}

/// How often things have happened.
pub struct Tally {
    /// Synchronous calls.
    pub sync_calls: nat,
    /// Submissions in batches that the backend answered to.
    pub batched_calls: nat,
    /// Batches that the backend answered to, successful or not.
    pub batches: nat,
    /// Failed synchronous calls and failed batches.
    pub errors: nat,
}

/// A dispatcher, and what has happened to it.
pub struct History<T> {
    /// The dispatcher now.
    pub fleet: FleetView<T>,
    /// The submissions that came into the queue, in order.
    pub accepted: Seq<PendingItem<T>>,
    /// Those of them that came before a shutdown was requested, in order.
    pub ahead: Seq<PendingItem<T>>,
    /// What the backend was given in batches: the requests of all of them, in order.
    pub handed: Seq<(Seq<char>, Value)>,
    /// What callers were told once the backend had answered, in order.
    pub served: Seq<(T, OutcomeView)>,
    /// What callers were told when the flusher stopped, in order.
    pub refused: Seq<(T, OutcomeView)>,
    /// The submissions that were pending when the flusher was given up, in order.
    pub dropped: Seq<PendingItem<T>>,
    /// How often things have happened.
    pub tally: Tally,
}

impl<T> History<T> {
    /// Nothing has happened to `fleet` yet.
    pub open spec fn start(fleet: FleetView<T>) -> History<T> {
        History {
            fleet,
            accepted: Seq::empty(),
            ahead: Seq::empty(),
            handed: Seq::empty(),
            served: Seq::empty(),
            refused: Seq::empty(),
            dropped: Seq::empty(),
            tally: Tally { sync_calls: 0, batched_calls: 0, batches: 0, errors: 0 },
        }
    }

    /// Whether `event` can be next. The flusher does not run while its batch is
    /// with the backend, and the backend answers only then.
    pub open spec fn can(self, event: Event<T>) -> bool {
        match event {
            Event::Polled(now) => !(self.fleet.phase is Submitting),
            Event::Replied(reply) => self.fleet.phase is Submitting,
            _ => true,
        }
    }

    /// The history with `event` added.
    pub open spec fn step(self, event: Event<T>) -> History<T> {
        match event {
            Event::Submitted(item) => if self.fleet.phase is Stopped {
                self
            } else {
                History {
                    fleet: self.fleet.enqueued(item),
                    accepted: self.accepted.push(item),
                    ahead: if self.fleet.closing {
                        self.ahead
                    } else {
                        self.ahead.push(item)
                    },
                    ..self
                }
            },
            Event::ShutdownRequested => History { fleet: self.fleet.shut_down(), ..self },
            Event::Polled(now) => {
                let (fleet, step) = self.fleet.polled(now);
                match step {
                    StepView::Stop(told) => History { fleet, refused: self.refused + told, ..self },
                    StepView::Submit(requests) => History {
                        fleet,
                        handed: self.handed + requests,
                        ..self
                    },
                    _ => History { fleet, ..self },
                }
            },
            Event::Replied(reply) => {
                let (fleet, told) = self.fleet.completed(reply);
                History {
                    fleet,
                    served: self.served + told,
                    tally: Tally {
                        batches: self.tally.batches + 1,
                        batched_calls: self.tally.batched_calls + told.len(),
                        errors: if reply is Ok {
                            self.tally.errors
                        } else {
                            self.tally.errors + 1
                        },
                        ..self.tally
                    },
                    ..self
                }
            },
            Event::SyncDone { failed } => History {
                fleet: self.fleet.sync_done(failed),
                tally: Tally {
                    sync_calls: self.tally.sync_calls + 1,
                    errors: if failed {
                        self.tally.errors + 1
                    } else {
                        self.tally.errors
                    },
                    ..self.tally
                },
                ..self
            },
            Event::Abandoned => History {
                fleet: self.fleet.abandoned(),
                dropped: self.dropped + self.fleet.pending(),
                ..self
            },
        }
    }

    /// The history with all of `events` added.
    pub open spec fn run(self, events: Seq<Event<T>>) -> History<T>
        decreases events.len(),
    {
        if events.len() == 0 {
            self
        } else {
            self.step(events[0]).run(events.drop_first())
        }
    }

    /// Whether `events` can happen, one after the other.
    pub open spec fn possible(self, events: Seq<Event<T>>) -> bool
        decreases events.len(),
    {
        events.len() == 0 || {
            &&& self.can(events[0])
            &&& self.step(events[0]).possible(events.drop_first())
        }
    }

    /// The callers who have been told something, and those whose submissions were
    /// dropped, in order.
    pub open spec fn settled(self) -> Seq<T> {
        told_to(self.served) + told_to(self.refused) + callers(self.dropped)
    }

    /// The books balance: `owed` callers and those accepted since then are those
    /// told something, those dropped and those still pending, in the same order.
    pub open spec fn balanced(self, owed: Seq<T>) -> bool {
        &&& self.fleet.valid()
        &&& self.refused.len() > 0 || self.dropped.len() > 0 ==> self.fleet.phase is Stopped
        &&& owed + callers(self.accepted) == self.settled() + callers(self.fleet.pending())
    }

    /// A shutdown has been requested, and only the callers `first` are served, in
    /// order: all of them unless submissions were dropped.
    pub open spec fn serves_only(self, first: Seq<T>) -> bool {
        &&& self.fleet.closing
        &&& (told_to(self.served) + callers(self.fleet.live())).is_prefix_of(first)
        &&& self.dropped.len() == 0 ==> told_to(self.served) + callers(self.fleet.live()) == first
        &&& forall|i: int|
            0 <= i < self.refused.len() ==> (#[trigger] self.refused[i]).1 == shutdown_refusal()
    }

    /// The backend gets requests in order: `first` and the submissions accepted
    /// ahead of a shutdown begin with those handed to the backend and those still
    /// to be. There are no others unless submissions were dropped.
    pub open spec fn handed_in_order(self, first: Seq<PendingItem<T>>) -> bool {
        let handed = self.handed + requests_of(self.fleet.unsubmitted());
        &&& handed.is_prefix_of(requests_of(first + self.ahead))
        &&& self.dropped.len() == 0 ==> handed == requests_of(first + self.ahead)
    }

    /// The counters show the tally, as far as they reach.
    pub open spec fn counted(self) -> bool {
        &&& self.fleet.stats.sync_calls == self.tally.sync_calls % (usize::MAX as nat + 1)
        &&& self.fleet.stats.batched_calls == self.tally.batched_calls % (usize::MAX as nat + 1)
        &&& self.fleet.stats.batches_submitted == self.tally.batches % (usize::MAX as nat + 1)
        &&& self.fleet.stats.errors == self.tally.errors % (usize::MAX as nat + 1)
    }
}

/// The callers of some submissions.
pub open spec fn callers<T>(items: Seq<PendingItem<T>>) -> Seq<T> {
    items.map_values(|item: PendingItem<T>| item.tx)
}

/// The callers that some outcomes went to.
pub open spec fn told_to<T>(outcomes: Seq<(T, OutcomeView)>) -> Seq<T> {
    outcomes.map_values(|outcome: (T, OutcomeView)| outcome.0)
}

/// Filling a batch from the queue keeps every submission.
proof fn lemma_collected<T>(
    fleet: FleetView<T>,
    batch: Seq<PendingItem<T>>,
    opened_at: nat,
    waiting: bool,
    now: nat,
)
    requires
        1 <= batch.len() <= fleet.policy.fill_target(),
        waiting ==> batch.len() < fleet.policy.fill_target(),
        fleet.closing <==> has_shutdown(fleet.queue),
    ensures
        ({
            let (after, step) = fleet.collected(batch, opened_at, waiting, now);
            let left = window_left(fleet.policy.window_nanos(), opened_at, now);
            &&& after.valid()
            &&& after.pending() == batch + items_of(fleet.queue)
            &&& after.live() == batch + items_of(
                fleet.queue.take(leading_items(fleet.queue) as int),
            )
            &&& after.policy == fleet.policy
            &&& after.closing == fleet.closing
            &&& after.stats == fleet.stats
            &&& (after.phase matches PhaseView::Submitting { batch: filled, shutdown_seen } && {
                &&& step == StepView::<T>::Submit(requests_of(filled))
                &&& shutdown_seen ==> fleet.closing
                &&& left > 0 && !shutdown_seen ==> filled.len() == fleet.policy.fill_target()
            }) || (after.phase matches PhaseView::Collecting { batch: filled, opened_at: opened }
                && {
                &&& step == StepView::<T>::WaitFor(left)
                &&& opened == opened_at
                &&& left > 0
                &&& !fleet.closing
            })
        }),
{
    let left = window_left(fleet.policy.window_nanos(), opened_at, now);
    let space = room(batch.len(), fleet.policy.fill_target(), left, waiting);
    let queue = fleet.queue;
    let leading = leading_items(queue) as int;
    let taken: int = if leading <= space {
        leading
    } else {
        space as int
    };
    let rest = queue.skip(taken);
    lemma_items_of_leading(queue, taken);
    lemma_leading_items(rest);
    assert(queue.take(leading) =~= queue.take(taken) + rest.take(leading - taken));
    lemma_items_of_add(queue.take(taken), rest.take(leading - taken));
}

/// Running the flusher keeps every submission, and it refuses only what comes
/// behind a shutdown.
proof fn lemma_polled<T>(fleet: FleetView<T>, now: nat)
    requires
        fleet.valid(),
        !(fleet.phase is Submitting),
    ensures
        ({
            let (after, step) = fleet.polled(now);
            &&& after.valid()
            &&& after.policy == fleet.policy
            &&& after.closing == fleet.closing
            &&& after.stats == fleet.stats
            &&& match step {
                StepView::Stop(told) => {
                    &&& after.phase is Stopped
                    &&& told == all_told(fleet.pending(), shutdown_refusal())
                    &&& fleet.live().len() == 0
                    &&& after.pending().len() == 0
                    &&& after.live().len() == 0
                },
                _ => {
                    &&& after.pending() == fleet.pending()
                    &&& after.live() == fleet.live()
                    &&& fleet.closing ==> step is Submit
                    &&& step is Submit <==> after.phase is Submitting
                    &&& !(after.phase is Stopped)
                },
            }
        }),
{
    let queue = fleet.queue;
    let leading = leading_items(queue) as int;
    match fleet.phase {
        PhaseView::Idle => {
            if queue.len() > 0 {
                let rest = FleetView { queue: queue.drop_first(), ..fleet };
                lemma_leading_items(rest.queue);
                match queue[0] {
                    Msg::Item(item) => {
                        lemma_collected(rest, seq![item], now, false, now);
                        assert(queue.take(leading).drop_first() =~= rest.queue.take(leading - 1));
                    },
                    Msg::Shutdown => {},
                }
            }
        },
        PhaseView::Collecting { batch, opened_at } => {
            lemma_collected(fleet, batch, opened_at, true, now);
        },
        _ => {},
    }
}

/// The live submissions are the oldest of those pending.
proof fn lemma_live<T>(fleet: FleetView<T>)
    requires
        fleet.valid(),
    ensures
        fleet.live().is_prefix_of(fleet.pending()),
{
    lemma_items_of_leading(fleet.queue, leading_items(fleet.queue) as int);
}

/// An event keeps the books balanced.
proof fn lemma_step_balanced<T>(history: History<T>, event: Event<T>, owed: Seq<T>)
    requires
        history.balanced(owed),
        history.can(event),
    ensures
        history.step(event).balanced(owed),
{
    let fleet = history.fleet;
    let next = history.step(event);
    match event {
        Event::Submitted(item) => {
            lemma_leading_push(fleet.queue, Msg::Item(item));
            lemma_items_of_push(fleet.queue, Msg::Item(item));
            if !(fleet.phase is Stopped) {
                assert(owed + callers(next.accepted) =~= (owed + callers(history.accepted)).push(
                    item.tx,
                ));
                assert(next.settled() + callers(next.fleet.pending()) =~= (history.settled()
                    + callers(fleet.pending())).push(item.tx));
            }
        },
        Event::ShutdownRequested => {
            lemma_leading_push(fleet.queue, Msg::Shutdown);
            lemma_items_of_push(fleet.queue, Msg::Shutdown);
        },
        Event::Polled(now) => {
            lemma_polled(fleet, now);
            match fleet.polled(now).1 {
                StepView::Stop(told) => {
                    assert(next.settled() + callers(next.fleet.pending()) =~= history.settled()
                        + callers(fleet.pending()));
                },
                _ => {},
            }
        },
        Event::Replied(reply) => {
            assert(next.settled() + callers(next.fleet.pending()) =~= history.settled() + callers(
                fleet.pending(),
            ));
        },
        Event::SyncDone { failed } => {},
        Event::Abandoned => {
            assert(next.settled() + callers(next.fleet.pending()) =~= history.settled() + callers(
                fleet.pending(),
            ));
        },
    }
}

/// After a shutdown has been requested, an event adds nobody to those served.
proof fn lemma_step_serves_only<T>(history: History<T>, event: Event<T>, first: Seq<T>)
    requires
        history.fleet.valid(),
        history.dropped.len() > 0 ==> history.fleet.phase is Stopped,
        history.serves_only(first),
        history.can(event),
    ensures
        history.step(event).serves_only(first),
{
    let fleet = history.fleet;
    let next = history.step(event);
    let leading = leading_items(fleet.queue) as int;
    match event {
        Event::Submitted(item) => {
            lemma_leading_push(fleet.queue, Msg::Item(item));
            if has_shutdown(fleet.queue) {
                assert(next.fleet.queue.take(leading) =~= fleet.queue.take(leading));
            }
        },
        Event::ShutdownRequested => {
            lemma_leading_push(fleet.queue, Msg::Shutdown);
            if has_shutdown(fleet.queue) {
                assert(fleet.queue.push(Msg::Shutdown).take(leading) =~= fleet.queue.take(leading));
            }
        },
        Event::Polled(now) => {
            lemma_polled(fleet, now);
        },
        Event::Replied(reply) => {
            assert(told_to(next.served) + callers(next.fleet.live()) =~= told_to(history.served)
                + callers(fleet.live()));
        },
        Event::SyncDone { failed } => {},
        Event::Abandoned => {
            if fleet.pending().len() == 0 {
                lemma_live(fleet);
                assert(callers(next.fleet.live()) =~= callers(fleet.live()));
            }
        },
    }
}

/// An event keeps the requests in order.
proof fn lemma_step_handed_in_order<T>(
    history: History<T>,
    event: Event<T>,
    first: Seq<PendingItem<T>>,
)
    requires
        history.fleet.valid(),
        history.dropped.len() > 0 ==> history.fleet.phase is Stopped,
        history.handed_in_order(first),
        history.can(event),
    ensures
        history.step(event).handed_in_order(first),
{
    let fleet = history.fleet;
    let next = history.step(event);
    let leading = leading_items(fleet.queue) as int;
    lemma_leading_items(fleet.queue);
    match event {
        Event::Submitted(item) => {
            lemma_leading_push(fleet.queue, Msg::Item(item));
            lemma_items_of_push(fleet.queue, Msg::Item(item));
            if fleet.closing {
                if has_shutdown(fleet.queue) {
                    assert(fleet.queue.push(Msg::Item(item)).take(leading) =~= fleet.queue.take(
                        leading,
                    ));
                }
            } else if !(fleet.phase is Stopped) {
                assert(fleet.queue.take(leading) =~= fleet.queue);
                assert(next.fleet.queue.take(leading + 1) =~= next.fleet.queue);
                assert(requests_of(first + next.ahead) =~= requests_of(
                    first + history.ahead,
                ).push((item.request_id@, item.params)));
                assert(next.handed + requests_of(next.fleet.unsubmitted()) =~= (history.handed
                    + requests_of(fleet.unsubmitted())).push((item.request_id@, item.params)));
            }
        },
        Event::ShutdownRequested => {
            lemma_leading_push(fleet.queue, Msg::Shutdown);
            if !(fleet.phase is Stopped) {
                assert(next.fleet.queue.take(leading) =~= fleet.queue.take(leading));
            }
        },
        Event::Polled(now) => {
            lemma_polled(fleet, now);
            match fleet.polled(now).1 {
                StepView::Submit(requests) => {
                    assert(history.handed + requests_of(fleet.live()) =~= next.handed + requests_of(
                        next.fleet.unsubmitted(),
                    ));
                },
                _ => {},
            }
        },
        Event::Replied(reply) => {
            assert(next.fleet.unsubmitted() =~= fleet.unsubmitted());
        },
        Event::SyncDone { failed } => {},
        Event::Abandoned => {
            if fleet.pending().len() == 0 {
                lemma_live(fleet);
                assert(next.fleet.unsubmitted() =~= fleet.unsubmitted());
            }
        },
    }
}

/// Adding to a counter that wraps around.
proof fn lemma_count(counter: usize, tally: nat, more: usize)
    requires
        counter == tally % (usize::MAX as nat + 1),
    ensures
        counter.wrapping_add(more) == (tally + more) as nat % (usize::MAX as nat + 1),
{
    let size = usize::MAX as nat + 1;
    lemma_add_mod_noop(tally as int, more as int, size as int);
}

/// An event is counted.
proof fn lemma_step_counted<T>(history: History<T>, event: Event<T>)
    requires
        history.fleet.valid(),
        history.counted(),
        history.can(event),
    ensures
        history.step(event).counted(),
{
    let stats = history.fleet.stats;
    let tally = history.tally;
    lemma_count(stats.sync_calls, tally.sync_calls, 1);
    lemma_count(stats.batches_submitted, tally.batches, 1);
    lemma_count(stats.errors, tally.errors, 1);
    match event {
        Event::Replied(reply) => {
            let calls = history.fleet.taken_up().len();
            lemma_count(stats.batched_calls, tally.batched_calls, calls as usize);
        },
        _ => {},
    }
}

/// A run keeps the books balanced.
proof fn lemma_run_balanced<T>(history: History<T>, events: Seq<Event<T>>, owed: Seq<T>)
    requires
        history.balanced(owed),
        history.possible(events),
    ensures
        history.run(events).balanced(owed),
    decreases events.len(),
{
    if events.len() > 0 {
        lemma_step_balanced(history, events[0], owed);
        lemma_run_balanced(history.step(events[0]), events.drop_first(), owed);
    }
}

/// After a shutdown has been requested, a run adds nobody to those served.
proof fn lemma_run_serves_only<T>(
    history: History<T>,
    events: Seq<Event<T>>,
    owed: Seq<T>,
    first: Seq<T>,
)
    requires
        history.balanced(owed),
        history.serves_only(first),
        history.possible(events),
    ensures
        history.run(events).serves_only(first),
    decreases events.len(),
{
    if events.len() > 0 {
        lemma_step_balanced(history, events[0], owed);
        lemma_step_serves_only(history, events[0], first);
        lemma_run_serves_only(history.step(events[0]), events.drop_first(), owed, first);
    }
}

/// A run keeps the requests in order.
proof fn lemma_run_handed_in_order<T>(
    history: History<T>,
    events: Seq<Event<T>>,
    owed: Seq<T>,
    first: Seq<PendingItem<T>>,
)
    requires
        history.balanced(owed),
        history.handed_in_order(first),
        history.possible(events),
    ensures
        history.run(events).handed_in_order(first),
    decreases events.len(),
{
    if events.len() > 0 {
        lemma_step_balanced(history, events[0], owed);
        lemma_step_handed_in_order(history, events[0], first);
        lemma_run_handed_in_order(history.step(events[0]), events.drop_first(), owed, first);
    }
}

/// A run is counted.
proof fn lemma_run_counted<T>(history: History<T>, events: Seq<Event<T>>, owed: Seq<T>)
    requires
        history.balanced(owed),
        history.counted(),
        history.possible(events),
    ensures
        history.run(events).counted(),
    decreases events.len(),
{
    if events.len() > 0 {
        lemma_step_balanced(history, events[0], owed);
        lemma_step_counted(history, events[0]);
        lemma_run_counted(history.step(events[0]), events.drop_first(), owed);
    }
}

/// Every state that a dispatcher can come into is valid.
pub proof fn law_states_stay_valid<T>(fleet: FleetView<T>, events: Seq<Event<T>>)
    requires
        fleet.valid(),
        History::start(fleet).possible(events),
    ensures
        History::start(fleet).run(events).fleet.valid(),
{
    lemma_run_balanced(History::start(fleet), events, callers(fleet.pending()));
}

/// Every submission is answered at most once, none is lost unless the flusher is
/// given up, and nobody is told anything who did not submit: those who were
/// pending at first and those who came since are, in that order, those who were
/// told something, those dropped with the flusher, and those still pending.
pub proof fn law_every_submission_is_answered_once<T>(fleet: FleetView<T>, events: Seq<Event<T>>)
    requires
        fleet.valid(),
        History::start(fleet).possible(events),
    ensures
        ({
            let end = History::start(fleet).run(events);
            callers(fleet.pending()) + callers(end.accepted) == told_to(end.served) + told_to(
                end.refused,
            ) + callers(end.dropped) + callers(end.fleet.pending())
        }),
{
    lemma_run_balanced(History::start(fleet), events, callers(fleet.pending()));
}

/// The backend is given every request once, in the order in which they were
/// accepted, with its identifier and parameters unchanged, and none that came
/// after a shutdown was requested: the requests of all batches so far, followed
/// by those of the live submissions that have not gone out, are those that had
/// not gone out at first and those accepted ahead of a shutdown since. Where
/// submissions were dropped with the flusher, they are the oldest of these.
pub proof fn law_requests_are_submitted_in_order<T>(fleet: FleetView<T>, events: Seq<Event<T>>)
    requires
        fleet.valid(),
        History::start(fleet).possible(events),
    ensures
        ({
            let end = History::start(fleet).run(events);
            let due = requests_of(fleet.unsubmitted() + end.ahead);
            let gone = end.handed + requests_of(end.fleet.unsubmitted());
            &&& gone.is_prefix_of(due)
            &&& end.dropped.len() == 0 ==> gone == due
            &&& end.fleet.phase is Stopped ==> gone == end.handed
        }),
{
    let start = History::start(fleet);
    lemma_run_handed_in_order(start, events, callers(fleet.pending()), fleet.unsubmitted());
}

/// A dispatcher whose flusher has stopped owes nobody an answer.
pub proof fn law_stopped_owes_nothing<T>(fleet: FleetView<T>)
    requires
        fleet.valid(),
        fleet.phase is Stopped,
    ensures
        fleet.pending().len() == 0,
{
}

/// A shutdown drains pending work: whoever was pending when it was requested is
/// served by the backend, in order, and nobody else is. Whoever comes later is
/// told that the dispatcher is shutting down. Once the flusher has stopped all
/// of them have been told. Where submissions were dropped with the flusher,
/// those served are the first of those who were pending.
pub proof fn law_shutdown_drains_pending_work<T>(fleet: FleetView<T>, events: Seq<Event<T>>)
    requires
        fleet.valid(),
        !fleet.closing,
        History::start(fleet.shut_down()).possible(events),
    ensures
        ({
            let end = History::start(fleet.shut_down()).run(events);
            let first = told_to(end.served) + callers(end.fleet.live());
            &&& first.is_prefix_of(callers(fleet.pending()))
            &&& end.dropped.len() == 0 ==> first == callers(fleet.pending())
            &&& forall|i: int|
                0 <= i < end.refused.len() ==> (#[trigger] end.refused[i]).1 == shutdown_refusal()
            &&& end.fleet.phase is Stopped && end.dropped.len() == 0 ==> {
                &&& told_to(end.served) == callers(fleet.pending())
                &&& told_to(end.refused) == callers(end.accepted)
            }
        }),
{
    let closed = fleet.shut_down();
    let start = History::start(closed);
    lemma_leading_push(fleet.queue, Msg::Shutdown);
    lemma_items_of_push(fleet.queue, Msg::Shutdown);
    assert(closed.queue.take(fleet.queue.len() as int) =~= fleet.queue);
    let owed = callers(fleet.pending());
    lemma_run_balanced(start, events, owed);
    lemma_run_serves_only(start, events, owed, owed);
    let end = start.run(events);
    if end.fleet.phase is Stopped && end.dropped.len() == 0 {
        let told = end.settled() + callers(end.fleet.pending());
        assert(told_to(end.refused) =~= told.skip(owed.len() as int));
    }
}

/// Submissions that come after a shutdown was requested fail: whatever happens,
/// only callers who were ahead of the shutdown are served, and everybody else
/// who is told something is told that the dispatcher is shutting down. A
/// synchronous submission is refused when it is sent.
pub proof fn law_submissions_after_shutdown_fail<T>(
    fleet: FleetView<T>,
    events: Seq<Event<T>>,
    submission: SubmitView,
)
    requires
        fleet.valid(),
        fleet.closing,
        History::start(fleet).possible(events),
    ensures
        ({
            let end = History::start(fleet).run(events);
            let first = told_to(end.served) + callers(end.fleet.live());
            &&& end.fleet.closing
            &&& first.is_prefix_of(callers(fleet.live()))
            &&& end.dropped.len() == 0 ==> first == callers(fleet.live())
            &&& forall|i: int|
                0 <= i < end.refused.len() ==> (#[trigger] end.refused[i]).1 == shutdown_refusal()
            &&& submission.routes_sync(end.fleet.policy) ==> submission.refused_by(end.fleet)
        }),
{
    let start = History::start(fleet);
    lemma_run_serves_only(start, events, callers(fleet.pending()), callers(fleet.live()));
}

/// The counters show how often things have happened since the dispatcher was
/// made, up to the size of a counter.
pub proof fn law_counters_count<T>(policy: RoutingPolicy, events: Seq<Event<T>>)
    requires
        History::start(FleetView::<T>::initial(policy)).possible(events),
    ensures
        History::start(FleetView::<T>::initial(policy)).run(events).counted(),
{
    let fleet = FleetView::<T>::initial(policy);
    lemma_run_counted(History::start(fleet), events, callers(fleet.pending()));
}

/// `n` rounds, in each of which the flusher runs or the backend answers, whichever
/// is due.
pub open spec fn rounds<T>(
    history: History<T>,
    clock: spec_fn(nat) -> nat,
    replies: spec_fn(nat) -> BatchReplyView,
    n: nat,
) -> History<T>
    decreases n,
{
    if n == 0 {
        history
    } else {
        let before = rounds(history, clock, replies, (n - 1) as nat);
        if before.fleet.phase is Submitting {
            before.step(Event::Replied(replies(n)))
        } else {
            before.step(Event::Polled(clock(n)))
        }
    }
}

/// How many rounds it takes a dispatcher that is shutting down to stop, at most.
spec fn rounds_left<T>(fleet: FleetView<T>) -> nat {
    if fleet.phase is Stopped || fleet.phase is Submitting {
        2 * fleet.live().len()
    } else {
        2 * fleet.live().len() + 1
    }
}

/// Each round brings the end nearer, and keeps what every event keeps.
proof fn lemma_rounds<T>(
    fleet: FleetView<T>,
    clock: spec_fn(nat) -> nat,
    replies: spec_fn(nat) -> BatchReplyView,
    n: nat,
)
    requires
        fleet.valid(),
        fleet.closing,
    ensures
        ({
            let after = rounds(History::start(fleet), clock, replies, n);
            &&& after.balanced(callers(fleet.pending()))
            &&& after.serves_only(callers(fleet.live()))
            &&& after.handed_in_order(fleet.unsubmitted())
            &&& after.ahead.len() == 0
            &&& after.dropped.len() == 0
            &&& after.fleet.phase is Stopped || rounds_left(after.fleet) + n <= rounds_left(fleet)
        }),
    decreases n,
{
    let start = History::start(fleet);
    if n > 0 {
        let before = rounds(start, clock, replies, (n - 1) as nat);
        lemma_rounds(fleet, clock, replies, (n - 1) as nat);
        let event = if before.fleet.phase is Submitting {
            Event::Replied(replies(n))
        } else {
            Event::Polled(clock(n))
        };
        lemma_step_balanced(before, event, callers(fleet.pending()));
        lemma_step_serves_only(before, event, callers(fleet.live()));
        lemma_step_handed_in_order(before, event, fleet.unsubmitted());
        if event is Polled {
            lemma_polled(before.fleet, clock(n));
        }
    }
}

/// A shutdown stops the flusher: however the backend answers and however time
/// passes, after two rounds for each submission ahead of the shutdown and one
/// more the flusher has stopped. By then the backend was given every request
/// ahead of the shutdown that it had not been given, once, in order and
/// unchanged, and no other; and the callers ahead of the shutdown, and no
/// others, were served.
pub proof fn law_shutdown_stops_the_flusher<T>(
    fleet: FleetView<T>,
    clock: spec_fn(nat) -> nat,
    replies: spec_fn(nat) -> BatchReplyView,
    n: nat,
)
    requires
        fleet.valid(),
        fleet.closing,
        n > 2 * fleet.live().len(),
    ensures
        ({
            let end = rounds(History::start(fleet), clock, replies, n);
            &&& end.fleet.phase is Stopped
            &&& end.handed == requests_of(fleet.unsubmitted())
            &&& told_to(end.served) == callers(fleet.live())
        }),
{
    lemma_rounds(fleet, clock, replies, n);
}

/// A dispatcher whose flusher has stopped stays as it is, whatever happens to it,
/// but for the counters that a synchronous call moves and the note of a request to shut
/// down. Nothing more is accepted, and nobody is told anything.
pub proof fn law_stopped_is_final<T>(fleet: FleetView<T>, event: Event<T>)
    requires
        fleet.valid(),
        fleet.phase is Stopped,
        History::start(fleet).can(event),
    ensures
        ({
            let after = History::start(fleet).step(event);
            &&& after.fleet == (FleetView {
                stats: after.fleet.stats,
                closing: after.fleet.closing,
                ..fleet
            })
            &&& after.fleet.stats.batched_calls == fleet.stats.batched_calls
            &&& after.fleet.stats.batches_submitted == fleet.stats.batches_submitted
            &&& !(event is SyncDone) ==> after.fleet.stats == fleet.stats
            &&& !(event is ShutdownRequested) ==> after.fleet.closing == fleet.closing
            &&& after.accepted.len() == 0
            &&& after.ahead.len() == 0
            &&& after.handed.len() == 0
            &&& after.served.len() == 0
            &&& after.refused.len() == 0
            &&& after.dropped.len() == 0
        }),
{
    assert(fleet.queue =~= Seq::empty());
}

/// When the open batch was opened; a batch that opens now was opened now.
pub open spec fn opening_time<T>(fleet: FleetView<T>, now: nat) -> nat {
    match fleet.phase {
        PhaseView::Collecting { batch, opened_at } => opened_at,
        _ => now,
    }
}

/// Whether the window of the open batch is over.
pub open spec fn window_over<T>(fleet: FleetView<T>, now: nat) -> bool {
    window_left(fleet.policy.window_nanos(), opening_time(fleet, now), now) == 0
}

/// What a batch holds when it goes to the backend, and why it goes.
proof fn lemma_submit<T>(fleet: FleetView<T>, now: nat)
    requires
        fleet.valid(),
        !(fleet.phase is Submitting),
    ensures
        fleet.polled(now).1 matches StepView::Submit(requests) ==> {
            let after = fleet.polled(now).0;
            &&& after.phase matches PhaseView::Submitting { batch, shutdown_seen }
            &&& requests == requests_of(batch)
            &&& 1 <= batch.len() <= fleet.policy.fill_target()
            &&& batch == fleet.pending().take(batch.len() as int)
            &&& shutdown_seen ==> fleet.closing
            &&& batch.len() < fleet.policy.fill_target() && !shutdown_seen ==> window_over(
                fleet,
                now,
            )
        },
        fleet.polled(now).1 matches StepView::WaitFor(nanos) ==> {
            let after = fleet.polled(now).0;
            &&& after.phase matches PhaseView::Collecting { batch, opened_at }
            &&& nanos == window_left(fleet.policy.window_nanos(), opened_at, now)
            &&& nanos > 0
            &&& batch == fleet.pending()
            &&& items_of(after.queue).len() == 0
            &&& opened_at == opening_time(fleet, now)
        },
{
    if fleet.phase is Idle && fleet.queue.len() > 0 && fleet.queue[0] is Item {
        let rest = FleetView { queue: fleet.queue.drop_first(), ..fleet };
        lemma_collected(rest, seq![fleet.queue[0]->Item_0], now, false, now);
    }
    if fleet.phase is Collecting {
        lemma_collected(
            fleet,
            fleet.phase->Collecting_batch,
            fleet.phase->opened_at,
            true,
            now,
        );
    }
}

/// A batch that goes to the backend has at least one item, and never more than
/// `batch_max_size`, unless that is zero.
pub proof fn law_batch_size_is_capped<T>(fleet: FleetView<T>, now: nat)
    requires
        fleet.valid(),
        !(fleet.phase is Submitting),
        fleet.policy.batch_max_size > 0,
    ensures
        fleet.polled(now).1 matches StepView::Submit(requests) ==> 1 <= requests.len()
            <= fleet.policy.batch_max_size,
{
    lemma_submit(fleet, now);
}

/// A batch takes the oldest submissions, in order.
pub proof fn law_batch_takes_the_oldest<T>(fleet: FleetView<T>, now: nat)
    requires
        fleet.valid(),
        !(fleet.phase is Submitting),
    ensures
        fleet.polled(now).1 matches StepView::Submit(requests) ==> {
            &&& requests.len() <= fleet.pending().len()
            &&& requests == requests_of(fleet.pending().take(requests.len() as int))
        },
{
    lemma_polled(fleet, now);
}

/// A batch that is not full goes to the backend only because its window is over
/// or because of a shutdown.
pub proof fn law_batch_waits_for_its_size<T>(fleet: FleetView<T>, now: nat)
    requires
        fleet.valid(),
        !(fleet.phase is Submitting),
        !window_over(fleet, now),
        !fleet.closing,
    ensures
        fleet.polled(now).1 matches StepView::Submit(requests) ==> requests.len()
            == fleet.policy.fill_target(),
{
    lemma_submit(fleet, now);
}

/// While the window is open, a batch goes to the backend as soon as there are
/// submissions enough for it, and it takes exactly so many.
pub proof fn law_full_batch_goes_out_at_once<T>(fleet: FleetView<T>, now: nat)
    requires
        fleet.valid(),
        fleet.phase is Idle || fleet.phase is Collecting,
        !window_over(fleet, now),
        fleet.live().len() >= fleet.policy.fill_target(),
    ensures
        fleet.polled(now).1 == StepView::<T>::Submit(
            requests_of(fleet.pending().take(fleet.policy.fill_target() as int)),
        ),
{
    lemma_submit(fleet, now);
    lemma_items_of_leading(fleet.queue, leading_items(fleet.queue) as int);
}

/// Submissions that wait together share a batch: as long as there are no more of
/// them than a batch holds, all of them are in the open batch after the flusher
/// has run.
pub proof fn law_waiting_submissions_share_a_batch<T>(fleet: FleetView<T>, now: nat)
    requires
        fleet.valid(),
        fleet.phase is Idle || fleet.phase is Collecting,
        !window_over(fleet, now),
        !fleet.closing,
        fleet.pending().len() <= fleet.policy.fill_target(),
    ensures
        fleet.polled(now).0.taken_up() == fleet.pending(),
{
    lemma_submit(fleet, now);
    lemma_polled(fleet, now);
}

/// Waiting for a batch to fill up is bounded: it is never longer than the window.
pub proof fn law_wait_is_within_the_window<T>(fleet: FleetView<T>, now: nat)
    requires
        fleet.valid(),
        !(fleet.phase is Submitting),
    ensures
        fleet.polled(now).1 matches StepView::WaitFor(nanos) ==> 0 < nanos
            <= fleet.policy.window_nanos(),
{
}

/// Once its window is over an open batch goes to the backend, full or not.
pub proof fn law_open_batch_goes_out_in_time<T>(fleet: FleetView<T>, now: nat)
    requires
        fleet.valid(),
        fleet.phase is Collecting,
        now >= opening_time(fleet, now) + fleet.policy.window_nanos(),
    ensures
        fleet.polled(now).1 is Submit,
{
}

/// The flusher waits without limit only where nothing is pending.
pub proof fn law_idle_wait_owes_nothing<T>(fleet: FleetView<T>, now: nat)
    requires
        fleet.valid(),
        !(fleet.phase is Submitting),
    ensures
        fleet.polled(now).1 is Wait ==> fleet.pending().len() == 0,
{
}

/// Each caller of a batch gets the result of their own request: where the
/// identifiers differ and the backend has a result for each of them, the
/// outcome at each place is the result under the identifier at that place.
pub proof fn law_each_caller_gets_their_own_result<T>(
    batch: Seq<PendingItem<T>>,
    results: Map<Seq<char>, Outcome>,
)
    requires
        forall|i: int, j: int|
            0 <= i < j < batch.len() ==> (#[trigger] batch[i]).request_id@ != (
            #[trigger] batch[j]).request_id@,
        forall|i: int|
            0 <= i < batch.len() ==> results.contains_key((#[trigger] batch[i]).request_id@),
    ensures
        batch_outcomes(batch, Ok(results)).len() == batch.len(),
        forall|i: int|
            0 <= i < batch.len() ==> (#[trigger] batch_outcomes(batch, Ok(results))[i]) == (
                batch[i].tx,
                outcome_view(results[batch[i].request_id@]),
            ),
{
}

/// What one caller of a batch is told does not depend on the results of others.
pub proof fn law_results_do_not_interfere<T>(
    batch: Seq<PendingItem<T>>,
    results: Map<Seq<char>, Outcome>,
    others: Map<Seq<char>, Outcome>,
    i: int,
)
    requires
        0 <= i < batch.len(),
        results.contains_key(batch[i].request_id@) == others.contains_key(batch[i].request_id@),
        results.contains_key(batch[i].request_id@) ==> results[batch[i].request_id@]
            == others[batch[i].request_id@],
    ensures
        batch_outcomes(batch, Ok(results))[i] == batch_outcomes(batch, Ok(others))[i],
{
}

/// A caller whose identifier the backend left out is told that there is no result.
pub proof fn law_missing_result_is_reported<T>(
    batch: Seq<PendingItem<T>>,
    results: Map<Seq<char>, Outcome>,
    i: int,
)
    requires
        0 <= i < batch.len(),
        !results.contains_key(batch[i].request_id@),
    ensures
        batch_outcomes(batch, Ok(results))[i] == (
            batch[i].tx,
            Err::<Value, ErrorView>(ErrorView::Other("no result"@)),
        ),
{
}

/// Where the batch as a whole fails, every caller in it is told the error's text
/// as a provider error.
pub proof fn law_failed_batch_is_reported_to_all<T>(
    batch: Seq<PendingItem<T>>,
    error: ErrorView,
    i: int,
)
    requires
        0 <= i < batch.len(),
    ensures
        batch_outcomes(batch, Err(error)).len() == batch.len(),
        batch_outcomes(batch, Err(error))[i] == (
            batch[i].tx,
            Err::<Value, ErrorView>(ErrorView::Provider(error.message())),
        ),
{
}

/// Forcing overrides the budget, and forcing synchronous routing overrides
/// forcing batch routing.
pub proof fn law_forcing_overrides_the_budget(submission: SubmitView, policy: RoutingPolicy)
    ensures
        submission.force_sync ==> submission.routes_sync(policy),
        submission.force_batch && !submission.force_sync ==> !submission.routes_sync(policy),
{
}

/// Without forcing, budgets at or below the policy's limit are synchronous, and
/// all others, and submissions without a budget, go to a batch.
pub proof fn law_budget_decides(submission: SubmitView, policy: RoutingPolicy)
    requires
        !submission.force_sync,
        !submission.force_batch,
    ensures
        submission.latency_budget_ms matches Some(ms) ==> (submission.routes_sync(policy) <==> ms
            <= policy.sync_max_latency_ms),
        submission.latency_budget_ms is None ==> !submission.routes_sync(policy),
{
}

/// A submission that is synchronous stays so under a tighter budget.
pub proof fn law_tighter_budget_stays_sync(submission: SubmitView, policy: RoutingPolicy, ms: u64)
    requires
        submission.routes_sync(policy),
        submission.latency_budget_ms matches Some(budget) ==> ms <= budget,
        submission.latency_budget_ms is Some,
    ensures
        (SubmitView { latency_budget_ms: Some(ms), ..submission }).routes_sync(policy),
{
}

} // verus!
