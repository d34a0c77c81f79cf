//! What each call does, told from its inputs and results alone.
//!
//! The statements here use the fields of the states, positions in sequences,
//! plain arithmetic and literal texts. Where a function by which a state is
//! described elsewhere stands in one of them, another says what that function is.

use serde_json::Value;
use vstd::prelude::*;

use crate::backend::{BackendError, BatchResults, ErrorView, Outcome, outcome_view};
use crate::dispatcher::{FlushStep, deliveries_view, reply_view, requests_view};
use crate::flusher::{
    BatchReplyView, FleetView, PhaseView, StepView, closed_refusal, requests_of, room, window_left,
};
use crate::laws::{Event, History, law_batch_waits_for_its_size, law_states_stay_valid};
use crate::policy::RoutingPolicy;
use crate::queue::{
    Msg, PendingItem, has_shutdown, items_of, leading_items, lemma_items_of_push,
    lemma_leading_items,
};
use crate::stats::DispatchStats;
use crate::submit::SubmitView;
use crate::trusted::{duration_nanos, is_request_id};

verus! {

/// There is one number of submissions at the front of a queue.
proof fn lemma_front<T>(queue: Seq<Msg<T>>, k: int)
    requires
        0 <= k <= queue.len(),
        forall|i: int| 0 <= i < k ==> (#[trigger] queue[i]) is Item,
        k < queue.len() ==> queue[k] is Shutdown,
    ensures
        leading_items(queue) == k,
{
    lemma_leading_items(queue);
}

/// The submissions of a part of a queue that holds nothing else.
proof fn lemma_items_of_front<T>(queue: Seq<Msg<T>>, n: int)
    requires
        0 <= n <= queue.len(),
        forall|i: int| 0 <= i < n ==> (#[trigger] queue[i]) is Item,
    ensures
        items_of(queue.take(n)) == Seq::new(n as nat, |i: int| queue[i]->Item_0),
    decreases n,
{
    let told = Seq::new(n as nat, |i: int| queue[i]->Item_0);
    if n == 0 {
        assert(queue.take(0) =~= Seq::empty());
        assert(items_of(queue.take(0)) =~= told);
    } else {
        lemma_items_of_front(queue, n - 1);
        lemma_items_of_push(queue.take(n - 1), queue[n - 1]);
        assert(queue.take(n) =~= queue.take(n - 1).push(queue[n - 1]));
        assert(items_of(queue.take(n)) =~= told);
    }
}

/// What filling a batch comes to.
proof fn lemma_filled<T>(
    fleet: FleetView<T>,
    batch: Seq<PendingItem<T>>,
    opened_at: nat,
    waiting: bool,
    now: nat,
    k: int,
)
    requires
        0 <= k <= fleet.queue.len(),
        forall|i: int| 0 <= i < k ==> (#[trigger] fleet.queue[i]) is Item,
        k < fleet.queue.len() ==> fleet.queue[k] is Shutdown,
    ensures
        ({
            let left = window_left(fleet.policy.window_nanos(), opened_at, now);
            let space = room(batch.len(), fleet.policy.fill_target(), left, waiting);
            let n = if k <= space {
                k
            } else {
                space as int
            };
            let filled = batch + Seq::new(n as nat, |i: int| fleet.queue[i]->Item_0);
            fleet.collected(batch, opened_at, waiting, now) == if n == space || (k
                == fleet.queue.len() && left == 0) {
                fleet.submitted(filled, fleet.queue.skip(n), false)
            } else if k < fleet.queue.len() {
                fleet.submitted(filled, fleet.queue.skip(n + 1), true)
            } else {
                (
                    FleetView {
                        queue: Seq::empty(),
                        phase: PhaseView::Collecting { batch: filled, opened_at },
                        ..fleet
                    },
                    StepView::WaitFor(left),
                )
            }
        }),
{
    let left = window_left(fleet.policy.window_nanos(), opened_at, now);
    let space = room(batch.len(), fleet.policy.fill_target(), left, waiting);
    let n = if k <= space {
        k
    } else {
        space as int
    };
    lemma_front(fleet.queue, k);
    lemma_items_of_front(fleet.queue, n);
    if n < fleet.queue.len() {
        assert(fleet.queue.skip(n).drop_first() =~= fleet.queue.skip(n + 1));
    } else {
        assert(fleet.queue.skip(n) =~= Seq::empty());
    }
}

/// What a poll of an open batch, or of one that opens now, comes to.
proof fn lemma_poll_fills<T>(
    fleet: FleetView<T>,
    batch: Seq<PendingItem<T>>,
    opened_at: nat,
    now: nat,
    k: int,
)
    requires
        fleet.valid(),
        fleet.phase == (PhaseView::Collecting { batch, opened_at }) || (fleet.phase is Idle && k > 0
            && batch.len() == 0 && opened_at == now),
        0 <= k <= fleet.queue.len(),
        forall|i: int| 0 <= i < k ==> (#[trigger] fleet.queue[i]) is Item,
        k < fleet.queue.len() ==> fleet.queue[k] is Shutdown,
    ensures
        ({
            let target = fleet.policy.fill_target();
            let left = window_left(fleet.policy.window_nanos(), opened_at, now);
            let n: int = if left == 0 {
                if k == 0 {
                    0
                } else {
                    1
                }
            } else if batch.len() + k <= target {
                k
            } else {
                target - batch.len()
            };
            let filled = batch + Seq::new(n as nat, |i: int| fleet.queue[i]->Item_0);
            fleet.polled(now) == if filled.len() == target || (left == 0 && (k > 0
                || fleet.queue.len() == 0)) {
                fleet.submitted(filled, fleet.queue.skip(n), false)
            } else if k < fleet.queue.len() {
                fleet.submitted(filled, fleet.queue.skip(n + 1), true)
            } else {
                (
                    FleetView {
                        queue: Seq::empty(),
                        phase: PhaseView::Collecting { batch: filled, opened_at },
                        ..fleet
                    },
                    StepView::WaitFor(left),
                )
            }
        }),
{
    let target = fleet.policy.fill_target();
    let left = window_left(fleet.policy.window_nanos(), opened_at, now);
    let n: int = if left == 0 {
        if k == 0 {
            0
        } else {
            1
        }
    } else if batch.len() + k <= target {
        k
    } else {
        target - batch.len()
    };
    let filled = batch + Seq::new(n as nat, |i: int| fleet.queue[i]->Item_0);
    if fleet.phase is Idle {
        let rest = FleetView { queue: fleet.queue.drop_first(), ..fleet };
        let first = seq![fleet.queue[0]->Item_0];
        assert forall|i: int| 0 <= i < k - 1 implies (#[trigger] rest.queue[i]) is Item by {
            assert(rest.queue[i] == fleet.queue[i + 1]);
        }
        lemma_filled(rest, first, now, false, now, k - 1);
        assert(first + Seq::new((n - 1) as nat, |i: int| rest.queue[i]->Item_0) =~= filled);
        assert(rest.queue.skip(n - 1) =~= fleet.queue.skip(n));
        if k < fleet.queue.len() && n == k {
            assert(rest.queue.skip(n) =~= fleet.queue.skip(n + 1));
        }
    } else {
        lemma_filled(fleet, batch, opened_at, true, now, k);
    }
}

/// While the window is open, a batch for which there are submissions enough goes
/// to the backend with exactly its size: what it had, then the oldest of the
/// queue. The rest of the queue and everything else stay. Its size is the smaller
/// of `batch_min_size` and `batch_max_size`, but at least one. Here and below, `k`
/// submissions stand at the front of the queue, and the batch is the open one, or
/// one that opens now with nothing in it.
pub proof fn law_poll_sends_a_full_batch<T>(
    fleet: FleetView<T>,
    batch: Seq<PendingItem<T>>,
    opened_at: nat,
    now: nat,
    k: int,
    size: int,
)
    requires
        fleet.valid(),
        fleet.phase == (PhaseView::Collecting { batch, opened_at }) || (fleet.phase is Idle && k > 0
            && batch.len() == 0 && opened_at == now),
        0 <= k <= fleet.queue.len(),
        forall|i: int| 0 <= i < k ==> (#[trigger] fleet.queue[i]) is Item,
        k < fleet.queue.len() ==> fleet.queue[k] is Shutdown,
        size == (if fleet.policy.batch_min_size == 0 || fleet.policy.batch_max_size == 0 {
            1
        } else if fleet.policy.batch_min_size <= fleet.policy.batch_max_size {
            fleet.policy.batch_min_size
        } else {
            fleet.policy.batch_max_size
        }),
        now < opened_at + duration_nanos(fleet.policy.batch_window),
        duration_nanos(fleet.policy.batch_window) > 0,
        batch.len() + k >= size,
    ensures
        ({
            let n = size - batch.len();
            let (after, step) = fleet.polled(now);
            let filled = batch + Seq::new(n as nat, |i: int| fleet.queue[i]->Item_0);
            &&& after == (FleetView {
                queue: fleet.queue.skip(n),
                phase: PhaseView::Submitting { batch: filled, shutdown_seen: false },
                ..fleet
            })
            &&& step matches StepView::Submit(requests) && requests.len() == filled.len() && (
            forall|i: int|
                0 <= i < filled.len() ==> (#[trigger] requests[i]) == (
                    filled[i].request_id@,
                    filled[i].params,
                ))
        }),
{
    lemma_poll_fills(fleet, batch, opened_at, now, k);
}

/// While the window is open, a batch that a `Shutdown` keeps from growing to its
/// size goes to the backend with all that is ahead of it.
pub proof fn law_poll_sends_what_is_ahead_of_a_shutdown<T>(
    fleet: FleetView<T>,
    batch: Seq<PendingItem<T>>,
    opened_at: nat,
    now: nat,
    k: int,
    size: int,
)
    requires
        fleet.valid(),
        fleet.phase == (PhaseView::Collecting { batch, opened_at }) || (fleet.phase is Idle && k > 0
            && batch.len() == 0 && opened_at == now),
        0 <= k <= fleet.queue.len(),
        forall|i: int| 0 <= i < k ==> (#[trigger] fleet.queue[i]) is Item,
        k < fleet.queue.len() ==> fleet.queue[k] is Shutdown,
        size == (if fleet.policy.batch_min_size == 0 || fleet.policy.batch_max_size == 0 {
            1
        } else if fleet.policy.batch_min_size <= fleet.policy.batch_max_size {
            fleet.policy.batch_min_size
        } else {
            fleet.policy.batch_max_size
        }),
        now < opened_at + duration_nanos(fleet.policy.batch_window),
        duration_nanos(fleet.policy.batch_window) > 0,
        batch.len() + k < size,
        k < fleet.queue.len(),
    ensures
        ({
            let (after, step) = fleet.polled(now);
            let filled = batch + Seq::new(k as nat, |i: int| fleet.queue[i]->Item_0);
            &&& after == (FleetView {
                queue: fleet.queue.skip(k + 1),
                phase: PhaseView::Submitting { batch: filled, shutdown_seen: true },
                ..fleet
            })
            &&& step matches StepView::Submit(requests) && requests.len() == filled.len() && (
            forall|i: int|
                0 <= i < filled.len() ==> (#[trigger] requests[i]) == (
                    filled[i].request_id@,
                    filled[i].params,
                ))
        }),
{
    lemma_poll_fills(fleet, batch, opened_at, now, k);
}

/// While the window is open, a batch that is short of its size takes all that is
/// in the queue and stays open. The time at which it was opened stays too, and
/// the flusher waits for what is left of the window.
pub proof fn law_poll_keeps_a_short_batch_open<T>(
    fleet: FleetView<T>,
    batch: Seq<PendingItem<T>>,
    opened_at: nat,
    now: nat,
    k: int,
    size: int,
)
    requires
        fleet.valid(),
        fleet.phase == (PhaseView::Collecting { batch, opened_at }) || (fleet.phase is Idle && k > 0
            && batch.len() == 0 && opened_at == now),
        0 <= k <= fleet.queue.len(),
        forall|i: int| 0 <= i < k ==> (#[trigger] fleet.queue[i]) is Item,
        k < fleet.queue.len() ==> fleet.queue[k] is Shutdown,
        size == (if fleet.policy.batch_min_size == 0 || fleet.policy.batch_max_size == 0 {
            1
        } else if fleet.policy.batch_min_size <= fleet.policy.batch_max_size {
            fleet.policy.batch_min_size
        } else {
            fleet.policy.batch_max_size
        }),
        now < opened_at + duration_nanos(fleet.policy.batch_window),
        duration_nanos(fleet.policy.batch_window) > 0,
        batch.len() + k < size,
        k == fleet.queue.len(),
    ensures
        ({
            let (after, step) = fleet.polled(now);
            &&& after == (FleetView {
                queue: Seq::empty(),
                phase: PhaseView::Collecting {
                    batch: batch + Seq::new(k as nat, |i: int| fleet.queue[i]->Item_0),
                    opened_at,
                },
                ..fleet
            })
            &&& step matches StepView::WaitFor(nanos) && {
                &&& now >= opened_at ==> now + nanos == opened_at + duration_nanos(
                    fleet.policy.batch_window,
                )
                &&& now < opened_at ==> nanos == duration_nanos(fleet.policy.batch_window)
            }
        }),
{
    lemma_poll_fills(fleet, batch, opened_at, now, k);
}

/// Once the window is over, the batch goes to the backend with at most one more
/// submission, the oldest of the queue; a `Shutdown` that stands there instead is
/// taken up.
pub proof fn law_poll_sends_a_late_batch<T>(
    fleet: FleetView<T>,
    batch: Seq<PendingItem<T>>,
    opened_at: nat,
    now: nat,
    k: int,
)
    requires
        fleet.valid(),
        fleet.phase == (PhaseView::Collecting { batch, opened_at }) || (fleet.phase is Idle && k > 0
            && batch.len() == 0 && opened_at == now),
        0 <= k <= fleet.queue.len(),
        forall|i: int| 0 <= i < k ==> (#[trigger] fleet.queue[i]) is Item,
        k < fleet.queue.len() ==> fleet.queue[k] is Shutdown,
        now >= opened_at + duration_nanos(fleet.policy.batch_window) || duration_nanos(
            fleet.policy.batch_window,
        ) == 0,
    ensures
        ({
            let n: int = if k > 0 {
                1
            } else {
                0
            };
            let seen = k == 0 && fleet.queue.len() > 0;
            let (after, step) = fleet.polled(now);
            let filled = batch + Seq::new(n as nat, |i: int| fleet.queue[i]->Item_0);
            &&& after == (FleetView {
                queue: if fleet.queue.len() == 0 { fleet.queue } else { fleet.queue.skip(1) },
                phase: PhaseView::Submitting { batch: filled, shutdown_seen: seen },
                ..fleet
            })
            &&& step matches StepView::Submit(requests) && requests.len() == filled.len() && (
            forall|i: int|
                0 <= i < filled.len() ==> (#[trigger] requests[i]) == (
                    filled[i].request_id@,
                    filled[i].params,
                ))
        }),
{
    lemma_poll_fills(fleet, batch, opened_at, now, k);
    if fleet.queue.len() == 0 {
        assert(fleet.queue.skip(0) =~= fleet.queue);
    }
}

/// A flusher that has nothing to do waits for a message, and nothing changes.
pub proof fn law_poll_waits_for_a_message<T>(fleet: FleetView<T>, now: nat)
    requires
        fleet.phase is Idle,
        fleet.queue.len() == 0,
    ensures
        fleet.polled(now).0 == fleet,
        fleet.polled(now).1 is Wait,
{
}

/// A flusher that has taken up a `Shutdown`, or finds one with no batch open,
/// tells every submission in the queue, in order, that the dispatcher is shutting
/// down. Then it has stopped, the queue is empty, and nothing else has changed.
pub proof fn law_poll_refuses_what_is_left<T>(fleet: FleetView<T>, now: nat)
    requires
        fleet.phase is Draining || (fleet.phase is Idle && fleet.queue.len() > 0 && fleet.queue[0]
            is Shutdown),
    ensures
        fleet.polled(now).0 == (FleetView {
            queue: Seq::empty(),
            phase: PhaseView::Stopped,
            ..fleet
        }),
        fleet.polled(now).1 matches StepView::Stop(told) && told.len() == items_of(
            fleet.queue,
        ).len() && (forall|i: int|
            0 <= i < told.len() ==> (#[trigger] told[i]) == (
                items_of(fleet.queue)[i].tx,
                Err::<Value, ErrorView>(ErrorView::Other("dispatcher shutdown"@)),
            )),
{
}

/// A flusher that has stopped tells nobody anything, and nothing changes.
pub proof fn law_poll_of_a_stopped_flusher<T>(fleet: FleetView<T>, now: nat)
    requires
        fleet.phase is Stopped,
    ensures
        fleet.polled(now).0 == fleet,
        fleet.polled(now).1 matches StepView::Stop(told) && told.len() == 0,
{
}

/// The submissions of a queue are those in it, in order: none of an empty queue;
/// a submission at the end is the last of them; a `Shutdown` adds none.
pub proof fn law_submissions_of_a_queue<T>(queue: Seq<Msg<T>>, item: PendingItem<T>)
    ensures
        items_of(Seq::<Msg<T>>::empty()) == Seq::<PendingItem<T>>::empty(),
        items_of(queue.push(Msg::Item(item))) == items_of(queue).push(item),
        items_of(queue.push(Msg::Shutdown)) == items_of(queue),
{
    lemma_items_of_push(queue, Msg::Item(item));
    lemma_items_of_push(queue, Msg::Shutdown);
}

/// A queue has a shutdown where a `Shutdown` stands in it.
pub proof fn law_shutdown_in_a_queue<T>(queue: Seq<Msg<T>>)
    ensures
        has_shutdown(queue) <==> exists|i: int|
            0 <= i < queue.len() && (#[trigger] queue[i]) is Shutdown,
{
    lemma_leading_items(queue);
    if has_shutdown(queue) {
        assert(queue[leading_items(queue) as int] is Shutdown);
    }
}

/// What is pending is the batch that the flusher has taken up, then the
/// submissions in the queue. What is live of it is the batch, then the `k`
/// submissions at the front of the queue, or nothing more once the flusher has
/// taken up a `Shutdown`. What has not gone to the backend of that is all of it,
/// but for a batch that is there.
pub proof fn law_pending_submissions<T>(fleet: FleetView<T>, k: int)
    requires
        0 <= k <= fleet.queue.len(),
        forall|i: int| 0 <= i < k ==> (#[trigger] fleet.queue[i]) is Item,
        k < fleet.queue.len() ==> fleet.queue[k] is Shutdown,
    ensures
        ({
            let front = Seq::new(k as nat, |i: int| fleet.queue[i]->Item_0);
            match fleet.phase {
                PhaseView::Idle => {
                    &&& fleet.pending() == items_of(fleet.queue)
                    &&& fleet.live() == front
                    &&& fleet.unsubmitted() == front
                },
                PhaseView::Collecting { batch, opened_at } => {
                    &&& fleet.pending() == batch + items_of(fleet.queue)
                    &&& fleet.live() == batch + front
                    &&& fleet.unsubmitted() == batch + front
                },
                PhaseView::Submitting { batch, shutdown_seen } => {
                    &&& fleet.pending() == batch + items_of(fleet.queue)
                    &&& fleet.live() == if shutdown_seen {
                        batch
                    } else {
                        batch + front
                    }
                    &&& fleet.unsubmitted() == if shutdown_seen {
                        Seq::empty()
                    } else {
                        front
                    }
                },
                _ => {
                    &&& fleet.pending() == items_of(fleet.queue)
                    &&& fleet.live().len() == 0
                    &&& fleet.unsubmitted().len() == 0
                },
            }
        }),
{
    lemma_front(fleet.queue, k);
    lemma_items_of_front(fleet.queue, k);
    let front = Seq::new(k as nat, |i: int| fleet.queue[i]->Item_0);
    let none = Seq::<PendingItem<T>>::empty();
    assert(none + items_of(fleet.queue) =~= items_of(fleet.queue));
    assert(none + front =~= front);
    match fleet.phase {
        PhaseView::Submitting { batch, shutdown_seen } => {
            assert((batch + front).skip(batch.len() as int) =~= front);
            assert(batch.skip(batch.len() as int) =~= none);
        },
        _ => {},
    }
}

/// A new dispatcher follows the policy that it was given. Nothing is queued, no
/// batch is open, no shutdown has been requested, and nothing is counted.
pub proof fn law_new_dispatcher<T>(policy: RoutingPolicy)
    ensures
        ({
            let fleet = FleetView::<T>::initial(policy);
            &&& fleet.policy == policy
            &&& fleet.queue.len() == 0
            &&& fleet.phase is Idle
            &&& !fleet.closing
            &&& fleet.stats.sync_calls == 0
            &&& fleet.stats.batched_calls == 0
            &&& fleet.stats.batches_submitted == 0
            &&& fleet.stats.errors == 0
        }),
{
}

/// Accepting a submission puts it behind all that is in the queue and changes
/// nothing else: not what the flusher is doing, with the open batch and the time
/// at which it was opened, nor the policy, the counters, or whether a shutdown
/// has been requested.
pub proof fn law_accepting_only_queues<T>(fleet: FleetView<T>, item: PendingItem<T>)
    ensures
        ({
            let after = fleet.enqueued(item);
            &&& after.queue.len() == fleet.queue.len() + 1
            &&& forall|i: int|
                0 <= i < fleet.queue.len() ==> (#[trigger] after.queue[i]) == fleet.queue[i]
            &&& after.queue[fleet.queue.len() as int] == Msg::Item(item)
            &&& after.phase == fleet.phase
            &&& after.policy == fleet.policy
            &&& after.closing == fleet.closing
            &&& after.stats == fleet.stats
        }),
{
}

/// Requesting a shutdown is noted and puts a `Shutdown` behind all that is in the
/// queue, unless the flusher has stopped. It changes nothing else.
pub proof fn law_shutdown_only_queues<T>(fleet: FleetView<T>)
    ensures
        ({
            let after = fleet.shut_down();
            &&& after.closing
            &&& fleet.phase is Stopped ==> after.queue == fleet.queue
            &&& !(fleet.phase is Stopped) ==> {
                &&& after.queue.len() == fleet.queue.len() + 1
                &&& forall|i: int|
                    0 <= i < fleet.queue.len() ==> (#[trigger] after.queue[i]) == fleet.queue[i]
                &&& after.queue[fleet.queue.len() as int] is Shutdown
            }
            &&& after.phase == fleet.phase
            &&& after.policy == fleet.policy
            &&& after.stats == fleet.stats
        }),
{
}

/// Giving the flusher up stops it and empties the queue. The policy, the counters
/// and whether a shutdown has been requested stay.
pub proof fn law_giving_up_stops<T>(fleet: FleetView<T>)
    ensures
        ({
            let after = fleet.abandoned();
            &&& after.phase is Stopped
            &&& after.queue.len() == 0
            &&& after.policy == fleet.policy
            &&& after.closing == fleet.closing
            &&& after.stats == fleet.stats
        }),
{
}

/// A synchronous call that comes back is counted, and counted as an error if it
/// failed. Nothing else changes: not the queue, nor what the flusher is doing.
pub proof fn law_sync_call_is_only_counted<T>(fleet: FleetView<T>, failed: bool)
    ensures
        ({
            let after = fleet.sync_done(failed);
            &&& after.queue == fleet.queue
            &&& after.phase == fleet.phase
            &&& after.policy == fleet.policy
            &&& after.closing == fleet.closing
            &&& after.stats.batched_calls == fleet.stats.batched_calls
            &&& after.stats.batches_submitted == fleet.stats.batches_submitted
            &&& fleet.stats.sync_calls < usize::MAX ==> after.stats.sync_calls
                == fleet.stats.sync_calls + 1
            &&& fleet.stats.sync_calls == usize::MAX ==> after.stats.sync_calls == 0
            &&& !failed ==> after.stats.errors == fleet.stats.errors
            &&& failed && fleet.stats.errors < usize::MAX ==> after.stats.errors
                == fleet.stats.errors + 1
            &&& failed && fleet.stats.errors == usize::MAX ==> after.stats.errors == 0
        }),
{
}

/// After the backend has answered, whatever it answered, the flusher is idle
/// again and goes on, or it drains if it has taken up a `Shutdown` before. One
/// batch and its calls are counted, and one error if the batch failed. The queue,
/// the policy and whether a shutdown has been requested stay.
pub proof fn law_flusher_goes_on_after_a_reply<T>(
    fleet: FleetView<T>,
    batch: Seq<PendingItem<T>>,
    shutdown_seen: bool,
    reply: BatchReplyView,
)
    requires
        fleet.phase == (PhaseView::Submitting { batch, shutdown_seen }),
        batch.len() <= usize::MAX,
    ensures
        ({
            let after = fleet.completed(reply).0;
            &&& !shutdown_seen ==> after.phase is Idle
            &&& shutdown_seen ==> after.phase is Draining
            &&& after.queue == fleet.queue
            &&& after.policy == fleet.policy
            &&& after.closing == fleet.closing
            &&& after.stats.sync_calls == fleet.stats.sync_calls
            &&& fleet.stats.batches_submitted < usize::MAX ==> after.stats.batches_submitted
                == fleet.stats.batches_submitted + 1
            &&& fleet.stats.batches_submitted == usize::MAX ==> after.stats.batches_submitted == 0
            &&& fleet.stats.batched_calls + batch.len() <= usize::MAX ==> after.stats.batched_calls
                == fleet.stats.batched_calls + batch.len()
            &&& fleet.stats.batched_calls + batch.len() > usize::MAX ==> after.stats.batched_calls
                == fleet.stats.batched_calls + batch.len() - usize::MAX - 1
            &&& reply is Ok ==> after.stats.errors == fleet.stats.errors
            &&& reply is Err && fleet.stats.errors < usize::MAX ==> after.stats.errors
                == fleet.stats.errors + 1
            &&& reply is Err && fleet.stats.errors == usize::MAX ==> after.stats.errors == 0
        }),
{
}

/// Where the backend took the batch that was with it, each of its callers, in
/// order and nobody else, is told the result under the identifier of their own
/// request. Where there is none, or an earlier request of the batch had the same
/// identifier, they are told that there is no result.
pub proof fn law_reply_brings_each_caller_their_result<T>(
    fleet: FleetView<T>,
    batch: Seq<PendingItem<T>>,
    shutdown_seen: bool,
    results: Map<Seq<char>, Outcome>,
    i: int,
)
    requires
        fleet.phase == (PhaseView::Submitting { batch, shutdown_seen }),
        0 <= i < batch.len(),
    ensures
        ({
            let told = fleet.completed(Ok(results)).1;
            let id = batch[i].request_id@;
            let first = forall|j: int|
                0 <= j < i ==> (#[trigger] batch[j]).request_id@ != batch[i].request_id@;
            &&& told.len() == batch.len()
            &&& told[i].0 == batch[i].tx
            &&& results.contains_key(id) && first ==> match results[id] {
                Ok(value) => told[i].1 == Ok::<Value, ErrorView>(value),
                Err(BackendError::Transport(text)) => told[i].1 == Err::<Value, ErrorView>(
                    ErrorView::Transport(text@),
                ),
                Err(BackendError::Provider(text)) => told[i].1 == Err::<Value, ErrorView>(
                    ErrorView::Provider(text@),
                ),
                Err(BackendError::Other(text)) => told[i].1 == Err::<Value, ErrorView>(
                    ErrorView::Other(text@),
                ),
            }
            &&& !(results.contains_key(id) && first) ==> told[i].1 == Err::<Value, ErrorView>(
                ErrorView::Other("no result"@),
            )
        }),
{
}

/// Where the batch that was with the backend failed, each of its callers, in
/// order and nobody else, is told of a provider error with the text of the error.
pub proof fn law_failure_is_told_to_each_caller<T>(
    fleet: FleetView<T>,
    batch: Seq<PendingItem<T>>,
    shutdown_seen: bool,
    error: ErrorView,
    i: int,
)
    requires
        fleet.phase == (PhaseView::Submitting { batch, shutdown_seen }),
        0 <= i < batch.len(),
    ensures
        ({
            let told = fleet.completed(Err(error)).1;
            &&& told.len() == batch.len()
            &&& told[i].0 == batch[i].tx
            &&& told[i].1 == Err::<Value, ErrorView>(
                ErrorView::Provider(
                    match error {
                        ErrorView::Transport(text) => "backend transport error: "@ + text,
                        ErrorView::Provider(text) => "provider error: "@ + text,
                        ErrorView::Other(text) => "backend error: "@ + text,
                    },
                ),
            )
        }),
{
}

/// The text of an error says its kind, then its own text, and nothing of either
/// is lost: two errors of one kind with the same text are the same.
pub proof fn law_error_text(one: ErrorView, other: ErrorView, text: Seq<char>)
    ensures
        ErrorView::Transport(text).message() == "backend transport error: "@ + text,
        ErrorView::Provider(text).message() == "provider error: "@ + text,
        ErrorView::Other(text).message() == "backend error: "@ + text,
        one is Transport && other is Transport && one.message() == other.message() ==> one == other,
        one is Provider && other is Provider && one.message() == other.message() ==> one == other,
        one is Other && other is Other && one.message() == other.message() ==> one == other,
{
    match (one, other) {
        (ErrorView::Transport(a), ErrorView::Transport(b)) => {
            lemma_same_tail("backend transport error: "@, a, b);
        },
        (ErrorView::Provider(a), ErrorView::Provider(b)) => {
            lemma_same_tail("provider error: "@, a, b);
        },
        (ErrorView::Other(a), ErrorView::Other(b)) => {
            lemma_same_tail("backend error: "@, a, b);
        },
        _ => {},
    }
}

/// What stands behind the same beginning can be told apart.
proof fn lemma_same_tail(head: Seq<char>, a: Seq<char>, b: Seq<char>)
    ensures
        head + a == head + b ==> a == b,
{
    if head + a == head + b {
        assert((head + a).skip(head.len() as int) =~= a);
        assert((head + b).skip(head.len() as int) =~= b);
    }
}

/// A submission that comes when the dispatcher is closed is told so.
pub proof fn law_closed_dispatcher_says_so()
    ensures
        closed_refusal() == ErrorView::Other("dispatcher closed"@),
{
}

/// An outcome is seen as it is: the response itself, or the kind and the text of
/// the error.
pub proof fn law_outcomes_are_seen_as_they_are(value: Value, text: String)
    ensures
        outcome_view(Ok(value)) == Ok::<Value, ErrorView>(value),
        outcome_view(Err(BackendError::Transport(text))) == Err::<Value, ErrorView>(
            ErrorView::Transport(text@),
        ),
        outcome_view(Err(BackendError::Provider(text))) == Err::<Value, ErrorView>(
            ErrorView::Provider(text@),
        ),
        outcome_view(Err(BackendError::Other(text))) == Err::<Value, ErrorView>(
            ErrorView::Other(text@),
        ),
        BackendError::Transport(text)@ == ErrorView::Transport(text@),
        BackendError::Provider(text)@ == ErrorView::Provider(text@),
        BackendError::Other(text)@ == ErrorView::Other(text@),
{
}

/// A backend's reply to a batch is seen as it is.
pub proof fn law_replies_are_seen_as_they_are(results: BatchResults, error: BackendError)
    ensures
        reply_view(Ok(results)) == Ok::<Map<Seq<char>, Outcome>, ErrorView>(results@),
        reply_view(Err(error)) == Err::<Map<Seq<char>, Outcome>, ErrorView>(error@),
{
}

/// What the flusher asks for is seen as it is: the time to wait, the identifier
/// and the parameters of each request, and each caller with their outcome.
pub proof fn law_steps_are_seen_as_they_are<T>(
    nanos: u128,
    requests: Vec<(String, Value)>,
    deliveries: Vec<(T, Outcome)>,
    i: int,
)
    ensures
        FlushStep::<T>::Wait@ == StepView::<T>::Wait,
        FlushStep::<T>::WaitFor(nanos)@ == StepView::<T>::WaitFor(nanos as nat),
        FlushStep::<T>::Submit(requests)@ == StepView::<T>::Submit(requests_view(requests@)),
        FlushStep::Stop(deliveries)@ == StepView::Stop(deliveries_view(deliveries@)),
        requests_view(requests@).len() == requests@.len(),
        0 <= i < requests@.len() ==> requests_view(requests@)[i] == (
            requests@[i].0@,
            requests@[i].1,
        ),
        deliveries_view(deliveries@).len() == deliveries@.len(),
        0 <= i < deliveries@.len() ==> {
            &&& deliveries_view(deliveries@)[i].0 == deliveries@[i].0
            &&& deliveries_view(deliveries@)[i].1 == outcome_view(deliveries@[i].1)
        },
{
}

/// The requests of a batch are the identifiers and parameters of its items, in
/// order.
pub proof fn law_requests_of_a_batch<T>(batch: Seq<PendingItem<T>>, i: int)
    ensures
        requests_of(batch).len() == batch.len(),
        0 <= i < batch.len() ==> requests_of(batch)[i] == (batch[i].request_id@, batch[i].params),
{
}

/// A submission is refused at once only where it has to be: a synchronous one
/// where a shutdown has been requested, another one where the flusher has
/// stopped. A batch that is open or with the backend does not matter.
pub proof fn law_refused_only_when_closed<T>(submission: SubmitView, fleet: FleetView<T>)
    ensures
        submission.routes_sync(fleet.policy) ==> (submission.refused_by(fleet) <==> fleet.closing),
        !submission.routes_sync(fleet.policy) ==> (submission.refused_by(fleet) <==> fleet.phase
            is Stopped),
{
}

/// A submission is synchronous where that is forced, or where batch routing is
/// not forced and there is a budget at or below the policy's limit; otherwise it
/// is not. Nothing else of the policy or of the submission matters.
pub proof fn law_route(submission: SubmitView, policy: RoutingPolicy)
    ensures
        submission.routes_sync(policy) <==> (submission.force_sync || (!submission.force_batch
            && submission.latency_budget_ms is Some && submission.latency_budget_ms->0
            <= policy.sync_max_latency_ms)),
{
}

/// The preset has the limits that it is documented with.
pub proof fn law_preset(policy: RoutingPolicy)
    ensures
        policy.is_preset() <==> {
            &&& policy.sync_max_latency_ms == 5_000
            &&& duration_nanos(policy.batch_window) == 30_000_000_000
            &&& policy.batch_min_size == 1
            &&& policy.batch_max_size == 100
        },
{
}

/// A request identifier has thirty-two hexadecimal digits, in lower case, of
/// which one is the version of a random UUID and one its variant.
pub proof fn law_request_identifier(id: Seq<char>)
    ensures
        is_request_id(id) <==> {
            &&& id.len() == 32
            &&& forall|i: int|
                0 <= i < 32 ==> ('0' <= (#[trigger] id[i]) && id[i] <= '9') || ('a' <= id[i]
                    && id[i] <= 'f')
            &&& id[12] == '4'
            &&& id[16] == '8' || id[16] == '9' || id[16] == 'a' || id[16] == 'b'
        },
{
}

/// A state is one that a dispatcher can be in where an open batch has at least
/// one submission and fewer than its size, a batch with the backend has at least
/// one and at most its size, and a flusher that has stopped has an empty queue.
/// Unless it has stopped, a shutdown has been requested exactly where a `Shutdown`
/// is in the queue or has been taken up.
pub proof fn law_valid_states<T>(fleet: FleetView<T>, size: int)
    requires
        size == (if fleet.policy.batch_min_size == 0 || fleet.policy.batch_max_size == 0 {
            1
        } else if fleet.policy.batch_min_size <= fleet.policy.batch_max_size {
            fleet.policy.batch_min_size
        } else {
            fleet.policy.batch_max_size
        }),
    ensures
        ({
            let queued = exists|i: int|
                0 <= i < fleet.queue.len() && (#[trigger] fleet.queue[i]) is Shutdown;
            fleet.valid() <==> match fleet.phase {
                PhaseView::Idle => fleet.closing == queued,
                PhaseView::Collecting { batch, opened_at } => 1 <= batch.len() < size
                    && fleet.closing == queued,
                PhaseView::Submitting { batch, shutdown_seen } => 1 <= batch.len() <= size
                    && fleet.closing == (shutdown_seen || queued),
                PhaseView::Draining => fleet.closing,
                PhaseView::Stopped => fleet.queue.len() == 0,
            }
        }),
{
    law_shutdown_in_a_queue(fleet.queue);
}

/// Where the identifiers of a batch differ and the backend, which took it, has a
/// result for each of them, each caller is told the result under their own
/// identifier.
pub proof fn law_full_reply_serves_everybody<T>(
    fleet: FleetView<T>,
    batch: Seq<PendingItem<T>>,
    shutdown_seen: bool,
    results: Map<Seq<char>, Outcome>,
)
    requires
        fleet.phase == (PhaseView::Submitting { batch, shutdown_seen }),
        forall|i: int, j: int|
            0 <= i < j < batch.len() ==> (#[trigger] batch[i]).request_id@ != (
            #[trigger] batch[j]).request_id@,
        forall|i: int|
            0 <= i < batch.len() ==> results.contains_key((#[trigger] batch[i]).request_id@),
    ensures
        fleet.completed(Ok(results)).1.len() == batch.len(),
        forall|i: int|
            0 <= i < batch.len() ==> (#[trigger] fleet.completed(Ok(results)).1[i]) == (
                batch[i].tx,
                outcome_view(results[batch[i].request_id@]),
            ),
{
}

/// A synchronous call adds one to its counter, a batch adds one to the batches
/// and its calls to the batched calls, and either adds one to the errors if it
/// failed. Counters start again at zero behind the largest number; the others
/// stay.
pub proof fn law_counters_move(stats: DispatchStats, calls: usize, failed: bool)
    ensures
        ({
            let size = usize::MAX + 1;
            let sync = stats.after_sync(failed);
            let batch = stats.after_batch(calls, failed);
            let errors = if failed {
                (stats.errors + 1) % size
            } else {
                stats.errors as int
            };
            &&& sync.sync_calls == (stats.sync_calls + 1) % size
            &&& sync.batched_calls == stats.batched_calls
            &&& sync.batches_submitted == stats.batches_submitted
            &&& sync.errors == errors
            &&& batch.sync_calls == stats.sync_calls
            &&& batch.batched_calls == (stats.batched_calls + calls) % size
            &&& batch.batches_submitted == (stats.batches_submitted + 1) % size
            &&& batch.errors == errors
        }),
{
    lemma_wrapped(stats.sync_calls, 1);
    lemma_wrapped(stats.batched_calls, calls);
    lemma_wrapped(stats.batches_submitted, 1);
    lemma_wrapped(stats.errors, 1);
}

/// Addition that wraps around is addition up to a multiple of the size.
proof fn lemma_wrapped(a: usize, b: usize)
    ensures
        a.wrapping_add(b) == (a + b) % (usize::MAX + 1),
{
    let size = usize::MAX + 1;
    if a + b < size {
        vstd::arithmetic::div_mod::lemma_small_mod((a + b) as nat, size as nat);
    } else {
        vstd::arithmetic::div_mod::lemma_small_mod((a + b - size) as nat, size as nat);
        vstd::arithmetic::div_mod::lemma_mod_add_multiples_vanish(a + b - size, size);
    }
}

/// What one event keeps of a dispatcher's state.
proof fn lemma_step<T>(history: History<T>, event: Event<T>)
    requires
        history.fleet.valid(),
        history.can(event),
    ensures
        ({
            let after = history.step(event).fleet;
            &&& after.valid()
            &&& after.policy == history.fleet.policy
            &&& after.closing == (history.fleet.closing || event is ShutdownRequested)
            &&& after.phase is Stopped ==> history.fleet.phase is Stopped || history.fleet.closing
                || event is Abandoned
        }),
{
    reveal_with_fuel(History::run, 2);
    reveal_with_fuel(History::possible, 2);
    law_states_stay_valid(history.fleet, seq![event]);
    assert(seq![event].drop_first() =~= Seq::empty());
}

/// A dispatcher follows one policy, the one that it was made with, whatever
/// happens to it.
pub proof fn law_policy_stays<T>(fleet: FleetView<T>, events: Seq<Event<T>>)
    requires
        fleet.valid(),
        History::start(fleet).possible(events),
    ensures
        History::start(fleet).run(events).fleet.policy == fleet.policy,
{
    lemma_run_policy(History::start(fleet), events);
}

/// Every event keeps the policy.
proof fn lemma_run_policy<T>(history: History<T>, events: Seq<Event<T>>)
    requires
        history.fleet.valid(),
        history.possible(events),
    ensures
        history.run(events).fleet.policy == history.fleet.policy,
    decreases events.len(),
{
    if events.len() > 0 {
        lemma_step(history, events[0]);
        lemma_run_policy(history.step(events[0]), events.drop_first());
    }
}

/// A dispatcher routes by the policy that it was made with, whatever has happened
/// to it since: a submission with a budget and no forcing is synchronous exactly
/// where the budget is at or below that policy's limit.
pub proof fn law_made_policy_routes<T>(
    policy: RoutingPolicy,
    events: Seq<Event<T>>,
    submission: SubmitView,
)
    requires
        History::start(FleetView::<T>::initial(policy)).possible(events),
        !submission.force_sync,
        !submission.force_batch,
    ensures
        ({
            let end = History::start(FleetView::<T>::initial(policy)).run(events).fleet;
            &&& end.policy == policy
            &&& submission.latency_budget_ms matches Some(ms) ==> (submission.routes_sync(
                end.policy,
            ) <==> ms <= policy.sync_max_latency_ms)
            &&& submission.latency_budget_ms is None ==> !submission.routes_sync(end.policy)
        }),
{
    law_policy_stays(FleetView::<T>::initial(policy), events);
}

/// The flusher of a new dispatcher stops only because of a shutdown, or because it
/// is given up, and a shutdown is noted exactly where one was requested. Failed
/// batches, an empty queue or the time do not stop it.
pub proof fn law_only_a_shutdown_stops<T>(policy: RoutingPolicy, events: Seq<Event<T>>)
    requires
        History::start(FleetView::<T>::initial(policy)).possible(events),
    ensures
        ({
            let end = History::start(FleetView::<T>::initial(policy)).run(events).fleet;
            let requested = exists|i: int|
                0 <= i < events.len() && (#[trigger] events[i]) is ShutdownRequested;
            let given_up = exists|i: int|
                0 <= i < events.len() && (#[trigger] events[i]) is Abandoned;
            &&& end.closing <==> requested
            &&& end.phase is Stopped ==> requested || given_up
            &&& end.phase is Stopped && !given_up ==> end.closing
        }),
{
    lemma_run_stops(History::start(FleetView::<T>::initial(policy)), events);
}

/// What can stop the flusher in a run.
proof fn lemma_run_stops<T>(history: History<T>, events: Seq<Event<T>>)
    requires
        history.fleet.valid(),
        history.possible(events),
    ensures
        ({
            let end = history.run(events).fleet;
            let requested = exists|i: int|
                0 <= i < events.len() && (#[trigger] events[i]) is ShutdownRequested;
            let given_up = exists|i: int|
                0 <= i < events.len() && (#[trigger] events[i]) is Abandoned;
            &&& end.closing <==> history.fleet.closing || requested
            &&& end.phase is Stopped ==> history.fleet.phase is Stopped || end.closing || given_up
        }),
    decreases events.len(),
{
    if events.len() > 0 {
        let rest = events.drop_first();
        lemma_step(history, events[0]);
        lemma_run_stops(history.step(events[0]), rest);
        assert(forall|i: int| 0 <= i < rest.len() ==> (#[trigger] rest[i]) == events[i + 1]);
        assert(forall|i: int| 1 <= i < events.len() ==> (#[trigger] events[i]) == rest[i - 1]);
    }
}

/// While the flusher does not run and is not given up, an open batch stays as it
/// is, and so does the time at which it was opened.
pub proof fn law_open_batch_stays_between_polls<T>(history: History<T>, events: Seq<Event<T>>)
    requires
        history.fleet.phase is Collecting,
        history.possible(events),
        forall|i: int|
            0 <= i < events.len() ==> !((#[trigger] events[i]) is Polled) && !(events[i]
                is Abandoned),
    ensures
        history.run(events).fleet.phase == history.fleet.phase,
    decreases events.len(),
{
    if events.len() > 0 {
        let rest = events.drop_first();
        assert(forall|i: int| 0 <= i < rest.len() ==> (#[trigger] rest[i]) == events[i + 1]);
        assert(!(events[0] is Polled) && !(events[0] is Abandoned));
        law_open_batch_stays_between_polls(history.step(events[0]), rest);
    }
}

/// As long as a batch is open, the time at which it was opened stays.
proof fn lemma_run_opened_at<T>(history: History<T>, events: Seq<Event<T>>)
    requires
        history.fleet.valid(),
        history.possible(events),
        forall|n: int|
            0 <= n <= events.len() ==> (#[trigger] history.run(events.take(n))).fleet.phase
                is Collecting,
    ensures
        ({
            let end = history.run(events).fleet;
            &&& end.valid()
            &&& end.policy == history.fleet.policy
            &&& end.phase is Collecting
            &&& end.phase->opened_at == history.fleet.phase->opened_at
        }),
    decreases events.len(),
{
    assert(events.take(0) =~= Seq::empty());
    assert(history.run(events.take(0)).fleet.phase is Collecting);
    if events.len() > 0 {
        let rest = events.drop_first();
        let next = history.step(events[0]);
        lemma_step(history, events[0]);
        assert forall|n: int| 0 <= n <= rest.len() implies (#[trigger] next.run(
            rest.take(n),
        )).fleet.phase is Collecting by {
            assert(events.take(n + 1).drop_first() =~= rest.take(n));
            assert(history.run(events.take(n + 1)).fleet.phase is Collecting);
        }
        lemma_run_opened_at(next, rest);
        assert(rest.take(0) =~= Seq::empty());
        assert(next.run(rest.take(0)).fleet.phase is Collecting);
    }
}

/// A batch waits for its size or for its window, counted from the poll that opened
/// it: however many submissions come and however often the flusher runs while the
/// batch is open, a poll sends it short of its size only where a shutdown has been
/// requested or the whole window has gone by since it was opened. `events` are
/// what happens after the poll at `opened_at`, and `now` is the time of the poll
/// after them.
pub proof fn law_short_batch_waits_for_its_window<T>(
    fleet: FleetView<T>,
    opened_at: nat,
    events: Seq<Event<T>>,
    now: nat,
    size: int,
)
    requires
        fleet.valid(),
        fleet.phase is Idle,
        ({
            let opened = History::start(fleet).step(Event::Polled(opened_at));
            &&& opened.possible(events)
            &&& forall|n: int|
                0 <= n <= events.len() ==> (#[trigger] opened.run(events.take(n))).fleet.phase
                    is Collecting
        }),
        size == (if fleet.policy.batch_min_size == 0 || fleet.policy.batch_max_size == 0 {
            1
        } else if fleet.policy.batch_min_size <= fleet.policy.batch_max_size {
            fleet.policy.batch_min_size
        } else {
            fleet.policy.batch_max_size
        }),
    ensures
        ({
            let open = History::start(fleet).step(Event::Polled(opened_at)).run(events).fleet;
            &&& open.phase matches PhaseView::Collecting { batch, opened_at: at } && at == opened_at
            &&& open.polled(now).1 matches StepView::Submit(requests) ==> {
                ||| requests.len() == size
                ||| open.closing
                ||| now >= opened_at + duration_nanos(fleet.policy.batch_window)
            }
        }),
{
    let start = History::start(fleet);
    let opened = start.step(Event::Polled(opened_at));
    let open = opened.run(events).fleet;
    assert(events.take(0) =~= Seq::empty());
    assert(opened.run(events.take(0)).fleet.phase is Collecting);
    lemma_step(start, Event::Polled(opened_at));
    lemma_run_opened_at(opened, events);
    if now < opened_at + duration_nanos(fleet.policy.batch_window) && !open.closing {
        law_batch_waits_for_its_size(open, now);
    }
}

/// A batch goes out when its window is over: the poll that finds it so sends it,
/// and the time counts from the poll that opened it, whatever came in between.
pub proof fn law_window_ends_for_an_open_batch<T>(
    fleet: FleetView<T>,
    opened_at: nat,
    events: Seq<Event<T>>,
    now: nat,
)
    requires
        fleet.valid(),
        fleet.phase is Idle,
        ({
            let opened = History::start(fleet).step(Event::Polled(opened_at));
            &&& opened.possible(events)
            &&& forall|n: int|
                0 <= n <= events.len() ==> (#[trigger] opened.run(events.take(n))).fleet.phase
                    is Collecting
        }),
        now >= opened_at + duration_nanos(fleet.policy.batch_window),
    ensures
        History::start(fleet).step(Event::Polled(opened_at)).run(events).fleet.polled(now).1
            is Submit,
{
    let start = History::start(fleet);
    let opened = start.step(Event::Polled(opened_at));
    assert(events.take(0) =~= Seq::empty());
    assert(opened.run(events.take(0)).fleet.phase is Collecting);
    lemma_step(start, Event::Polled(opened_at));
    lemma_run_opened_at(opened, events);
}

} // verus!
