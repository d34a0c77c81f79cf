//! The flusher as a mathematical object: its states, and what each event does to them.

use serde_json::Value;
use vstd::prelude::*;

use crate::backend::{ErrorView, Outcome, OutcomeView, outcome_view};
use crate::policy::RoutingPolicy;
use crate::queue::{Msg, PendingItem, has_shutdown, items_of, leading_items, lemma_leading_items};
use crate::stats::DispatchStats;

verus! {

/// What the flusher is doing.
pub enum PhaseView<T> {
    /// Nothing; it waits for a message.
    Idle,
    /// A batch is open and has room; it waits for more until the window is over.
    Collecting { batch: Seq<PendingItem<T>>, opened_at: nat },
    /// The batch is with the backend.
    Submitting { batch: Seq<PendingItem<T>>, shutdown_seen: bool },
    /// It has been told to stop, and what is left in the queue has to be refused.
    Draining,
    /// It has stopped.
    Stopped,
}

/// The state of a dispatcher.
pub struct FleetView<T> {
    /// The policy that the dispatcher was made with.
    pub policy: RoutingPolicy,
    /// The messages that the flusher has not taken up yet, oldest first.
    pub queue: Seq<Msg<T>>,
    /// What the flusher is doing.
    pub phase: PhaseView<T>,
    /// Whether a shutdown has been requested.
    pub closing: bool,
    /// The counters.
    pub stats: DispatchStats,
}

/// What the embedding program has to do for the flusher.
pub enum StepView<T> {
    /// Wait until there is a message.
    Wait,
    /// Wait until there is a message, but no longer than this many nanoseconds.
    WaitFor(nat),
    /// Give these requests to the backend as one batch.
    Submit(Seq<(Seq<char>, Value)>),
    /// Hand out these last outcomes. The flusher has stopped.
    Stop(Seq<(T, OutcomeView)>),
}

/// What the backend answered to a batch: the results by request identifier, or
/// why the batch as a whole failed.
pub type BatchReplyView = Result<Map<Seq<char>, Outcome>, ErrorView>;

/// What a backend is given for a batch: identifier and parameters of each item.
pub open spec fn requests_of<T>(batch: Seq<PendingItem<T>>) -> Seq<(Seq<char>, Value)> {
    batch.map_values(|item: PendingItem<T>| (item.request_id@, item.params))
}

/// Every item of `items` gets the same outcome.
pub open spec fn all_told<T>(items: Seq<PendingItem<T>>, outcome: OutcomeView) -> Seq<
    (T, OutcomeView),
> {
    items.map_values(|item: PendingItem<T>| (item.tx, outcome))
}

/// What is told to a submission that the flusher finds behind a `Shutdown`.
pub open spec fn shutdown_refusal() -> OutcomeView {
    Err(ErrorView::Other("dispatcher shutdown"@))
}

/// What is told to a submission that comes when the dispatcher is closed.
pub open spec fn closed_refusal() -> ErrorView {
    ErrorView::Other("dispatcher closed"@)
}

/// Whether an item of `batch` before the one at `i` has the same identifier.
pub open spec fn id_taken<T>(batch: Seq<PendingItem<T>>, i: int) -> bool {
    exists|j: int|
        0 <= j < i && (#[trigger] batch[j]).request_id@ == batch[i].request_id@
}

/// What the item at `i` is told when the backend took the batch: the result
/// under its identifier. Where there is none, or an earlier item of the batch
/// had it, the item is told so.
pub open spec fn result_for<T>(
    results: Map<Seq<char>, Outcome>,
    batch: Seq<PendingItem<T>>,
    i: int,
) -> OutcomeView {
    let id = batch[i].request_id@;
    if results.contains_key(id) && !id_taken(batch, i) {
        outcome_view(results[id])
    } else {
        Err(ErrorView::Other("no result"@))
    }
}

/// What each item of `batch` is told once the backend has answered.
pub open spec fn batch_outcomes<T>(batch: Seq<PendingItem<T>>, reply: BatchReplyView) -> Seq<
    (T, OutcomeView),
> {
    match reply {
        Ok(results) => Seq::new(
            batch.len(),
            |i: int| (batch[i].tx, result_for(results, batch, i)),
        ),
        Err(error) => all_told(batch, Err(ErrorView::Provider(error.message()))),
    }
}

/// How much of a window of `window` nanoseconds that opened at `opened_at` is
/// left at `now`.
pub open spec fn window_left(window: nat, opened_at: nat, now: nat) -> nat {
    if now <= opened_at {
        window
    } else if now - opened_at >= window {
        0
    } else {
        (window - (now - opened_at)) as nat
    }
}

/// How many more items a batch of `len` items takes. A full batch takes none.
/// Once the window is over no more are waited for: only the one message that the
/// flusher was already waiting for may still come in.
pub open spec fn room(len: nat, target: nat, left: nat, waiting: bool) -> nat {
    if len >= target {
        0
    } else if left > 0 {
        (target - len) as nat
    } else if waiting {
        1
    } else {
        0
    }
}

impl<T> FleetView<T> {
    /// The state of a new dispatcher.
    pub open spec fn initial(policy: RoutingPolicy) -> FleetView<T> {
        FleetView {
            policy,
            queue: Seq::empty(),
            phase: PhaseView::Idle,
            closing: false,
            stats: DispatchStats {
                sync_calls: 0,
                batched_calls: 0,
                batches_submitted: 0,
                errors: 0,
            },
        }
    }

    /// What holds of every state that a dispatcher can be in.
    pub open spec fn valid(self) -> bool {
        &&& match self.phase {
            PhaseView::Idle => true,
            PhaseView::Collecting { batch, opened_at } => 1 <= batch.len()
                < self.policy.fill_target(),
            PhaseView::Submitting { batch, shutdown_seen } => 1 <= batch.len()
                <= self.policy.fill_target(),
            PhaseView::Draining => true,
            PhaseView::Stopped => self.queue.len() == 0,
        }
        &&& !(self.phase is Stopped) ==> (self.closing <==> self.past_shutdown() || has_shutdown(
            self.queue,
        ))
    }

    /// Whether the flusher has taken up a `Shutdown`.
    pub open spec fn past_shutdown(self) -> bool {
        match self.phase {
            PhaseView::Submitting { batch, shutdown_seen } => shutdown_seen,
            PhaseView::Draining => true,
            PhaseView::Stopped => true,
            _ => false,
        }
    }

    /// The items that the flusher has taken up and not answered.
    pub open spec fn taken_up(self) -> Seq<PendingItem<T>> {
        match self.phase {
            PhaseView::Collecting { batch, opened_at } => batch,
            PhaseView::Submitting { batch, shutdown_seen } => batch,
            _ => Seq::empty(),
        }
    }

    /// The submissions that were accepted and not answered, oldest first.
    pub open spec fn pending(self) -> Seq<PendingItem<T>> {
        self.taken_up() + items_of(self.queue)
    }

    /// The pending submissions that no `Shutdown` is ahead of, oldest first.
    pub open spec fn live(self) -> Seq<PendingItem<T>> {
        if self.past_shutdown() {
            self.taken_up()
        } else {
            self.taken_up() + items_of(self.queue.take(leading_items(self.queue) as int))
        }
    }

    /// The live submissions that have not gone to the backend, oldest first.
    pub open spec fn unsubmitted(self) -> Seq<PendingItem<T>> {
        if self.phase is Submitting {
            self.live().skip(self.taken_up().len() as int)
        } else {
            self.live()
        }
    }

    /// A submission comes into the queue.
    pub open spec fn enqueued(self, item: PendingItem<T>) -> FleetView<T> {
        FleetView { queue: self.queue.push(Msg::Item(item)), ..self }
    }

    /// A shutdown is requested. The flusher learns of it through the queue.
    pub open spec fn shut_down(self) -> FleetView<T> {
        FleetView {
            queue: if self.phase is Stopped {
                self.queue
            } else {
                self.queue.push(Msg::Shutdown)
            },
            closing: true,
            ..self
        }
    }

    /// The flusher is gone before it has stopped, and with it all that is pending.
    pub open spec fn abandoned(self) -> FleetView<T> {
        FleetView { queue: Seq::empty(), phase: PhaseView::Stopped, ..self }
    }

    /// `batch` goes to the backend.
    pub open spec fn submitted(
        self,
        batch: Seq<PendingItem<T>>,
        queue: Seq<Msg<T>>,
        shutdown_seen: bool,
    ) -> (FleetView<T>, StepView<T>) {
        (
            FleetView { queue, phase: PhaseView::Submitting { batch, shutdown_seen }, ..self },
            StepView::Submit(requests_of(batch)),
        )
    }

    /// Every submission in the queue is refused, and the flusher stops.
    pub open spec fn drained(self) -> (FleetView<T>, StepView<T>) {
        (
            FleetView { queue: Seq::empty(), phase: PhaseView::Stopped, ..self },
            StepView::Stop(all_told(items_of(self.queue), shutdown_refusal())),
        )
    }

    /// A batch is filled from the queue. It takes the submissions at the front,
    /// as many as it has room for. It goes out when it has no more room, when a
    /// `Shutdown` follows, or when the queue and the window are both at their end;
    /// otherwise the flusher waits for the rest of the window.
    pub open spec fn collected(
        self,
        batch: Seq<PendingItem<T>>,
        opened_at: nat,
        waiting: bool,
        now: nat,
    ) -> (FleetView<T>, StepView<T>) {
        let left = window_left(self.policy.window_nanos(), opened_at, now);
        let room = room(batch.len(), self.policy.fill_target(), left, waiting);
        let taken = if leading_items(self.queue) <= room {
            leading_items(self.queue)
        } else {
            room
        };
        let filled = batch + items_of(self.queue.take(taken as int));
        let rest = self.queue.skip(taken as int);
        if taken == room {
            self.submitted(filled, rest, false)
        } else if rest.len() > 0 {
            self.submitted(filled, rest.drop_first(), true)
        } else if left == 0 {
            self.submitted(filled, rest, false)
        } else {
            (
                FleetView {
                    queue: rest,
                    phase: PhaseView::Collecting { batch: filled, opened_at },
                    ..self
                },
                StepView::WaitFor(left),
            )
        }
    }

    /// The flusher runs at `now` until it needs something from outside.
    pub open spec fn polled(self, now: nat) -> (FleetView<T>, StepView<T>)
        recommends
            !(self.phase is Submitting),
    {
        match self.phase {
            PhaseView::Idle => if self.queue.len() == 0 {
                (self, StepView::Wait)
            } else {
                let rest = FleetView { queue: self.queue.drop_first(), ..self };
                match self.queue[0] {
                    Msg::Item(item) => rest.collected(seq![item], now, false, now),
                    Msg::Shutdown => rest.drained(),
                }
            },
            PhaseView::Collecting { batch, opened_at } => self.collected(
                batch,
                opened_at,
                true,
                now,
            ),
            PhaseView::Draining => self.drained(),
            _ => (self, StepView::Stop(Seq::empty())),
        }
    }

    /// A synchronous call has come back.
    pub open spec fn sync_done(self, failed: bool) -> FleetView<T> {
        FleetView { stats: self.stats.after_sync(failed), ..self }
    }

    /// The backend has answered to the batch.
    pub open spec fn completed(self, reply: BatchReplyView) -> (FleetView<T>, Seq<(T, OutcomeView)>)
        recommends
            self.phase is Submitting,
    {
        match self.phase {
            PhaseView::Submitting { batch, shutdown_seen } => (
                FleetView {
                    phase: if shutdown_seen {
                        PhaseView::Draining
                    } else {
                        PhaseView::Idle
                    },
                    stats: self.stats.after_batch(batch.len() as usize, reply is Err),
                    ..self
                },
                batch_outcomes(batch, reply),
            ),
            _ => (self, Seq::empty()),
        }
    }
}

/// A batch with room that takes the submission at the front of the queue ends up
/// as the batch that had both in it from the start.
pub proof fn lemma_collect_one<T>(
    fleet: FleetView<T>,
    batch: Seq<PendingItem<T>>,
    opened_at: nat,
    waiting: bool,
    now: nat,
    item: PendingItem<T>,
)
    requires
        fleet.queue.len() > 0,
        fleet.queue[0] == Msg::Item(item),
        room(
            batch.len(),
            fleet.policy.fill_target(),
            window_left(fleet.policy.window_nanos(), opened_at, now),
            waiting,
        ) > 0,
    ensures
        fleet.collected(batch, opened_at, waiting, now) == (FleetView {
            queue: fleet.queue.drop_first(),
            ..fleet
        }).collected(batch.push(item), opened_at, false, now),
{
    let left = window_left(fleet.policy.window_nanos(), opened_at, now);
    let rest = fleet.queue.drop_first();
    let after = room(batch.push(item).len(), fleet.policy.fill_target(), left, false);
    let taken: int = if leading_items(rest) <= after {
        leading_items(rest) as int
    } else {
        after as int
    };
    lemma_leading_items(rest);
    assert(fleet.queue.take(taken + 1).drop_first() =~= rest.take(taken));
    assert(fleet.queue.skip(taken + 1) =~= rest.skip(taken));
    assert(batch + items_of(fleet.queue.take(taken + 1)) =~= batch.push(item) + items_of(
        rest.take(taken),
    ));
}

} // verus!
