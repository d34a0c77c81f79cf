//! The dispatcher: its queue, its flusher and its counters.

use std::collections::VecDeque;

use serde_json::Value;
use vstd::prelude::*;

use crate::backend::{BackendError, BatchResults, ErrorView, Outcome, OutcomeView, outcome_view};
use crate::flusher::{
    BatchReplyView, FleetView, PhaseView, StepView, all_told, batch_outcomes, closed_refusal,
    lemma_collect_one, requests_of, result_for, shutdown_refusal, window_left,
};
use crate::policy::RoutingPolicy;
use crate::queue::{Msg, PendingItem, has_shutdown, items_of, lemma_leading_push};
use crate::stats::DispatchStats;
use crate::submit::{SubmitBuilder, SubmitView};

verus! {

/// What the flusher is doing.
enum Phase<T> {
    Idle,
    Collecting { batch: Vec<PendingItem<T>>, opened_at: u64 },
    Submitting { batch: Vec<PendingItem<T>>, shutdown_seen: bool },
    Draining,
    Stopped,
}

impl<T> View for Phase<T> {
    type V = PhaseView<T>;

    closed spec fn view(&self) -> PhaseView<T> {
        match self {
            Phase::Idle => PhaseView::Idle,
            Phase::Collecting { batch, opened_at } => PhaseView::Collecting {
                batch: batch@,
                opened_at: *opened_at as nat,
            },
            Phase::Submitting { batch, shutdown_seen } => PhaseView::Submitting {
                batch: batch@,
                shutdown_seen: *shutdown_seen,
            },
            Phase::Draining => PhaseView::Draining,
            Phase::Stopped => PhaseView::Stopped,
        }
    }
}

/// What the embedding program has to do for the flusher.
pub enum FlushStep<T> {
    /// Wait until there is a message, then poll again.
    Wait,
    /// Wait until there is a message, but no longer than this many nanoseconds,
    /// then poll again.
    WaitFor(u128),
    /// Give these requests to the backend as one batch, and its reply to
    /// [`FleetDispatcher::complete_batch`].
    Submit(Vec<(String, Value)>),
    /// Hand out these last outcomes. The flusher has stopped.
    Stop(Vec<(T, Outcome)>),
}

/// The view of a batch's requests.
pub open spec fn requests_view(requests: Seq<(String, Value)>) -> Seq<(Seq<char>, Value)> {
    requests.map_values(|request: (String, Value)| (request.0@, request.1))
}

/// The view of outcomes on their way to the callers.
pub open spec fn deliveries_view<T>(deliveries: Seq<(T, Outcome)>) -> Seq<(T, OutcomeView)> {
    deliveries.map_values(|delivery: (T, Outcome)| (delivery.0, outcome_view(delivery.1)))
}

/// The view of the backend's reply to a batch.
pub open spec fn reply_view(reply: Result<BatchResults, BackendError>) -> BatchReplyView {
    match reply {
        Ok(results) => Ok(results@),
        Err(error) => Err(error@),
    }
}

impl<T> View for FlushStep<T> {
    type V = StepView<T>;

    open spec fn view(&self) -> StepView<T> {
        match self {
            FlushStep::Wait => StepView::Wait,
            FlushStep::WaitFor(nanos) => StepView::WaitFor(*nanos as nat),
            FlushStep::Submit(requests) => StepView::Submit(requests_view(requests@)),
            FlushStep::Stop(deliveries) => StepView::Stop(deliveries_view(deliveries@)),
        }
    }
}

/// Pools requests and dispatches them via batch or sync. It decides; the
/// embedding program waits, calls the backend and hands the outcomes out.
pub struct FleetDispatcher<T> {
    policy: RoutingPolicy,
    /// Stats counters (sync/batched/batches/errors).
    stats: DispatchStats,
    queue: VecDeque<Msg<T>>,
    flusher: Phase<T>,
    closing: bool,
}

impl<T> View for FleetDispatcher<T> {
    type V = FleetView<T>;

    closed spec fn view(&self) -> FleetView<T> {
        FleetView {
            policy: self.policy,
            queue: self.queue@,
            phase: self.flusher@,
            closing: self.closing,
            stats: self.stats,
        }
    }
}

impl<T> FleetDispatcher<T> {
    /// A dispatcher that follows `policy`, with nothing to do yet.
    pub fn new(policy: RoutingPolicy) -> (fleet: Self)
        ensures
            fleet@ == FleetView::<T>::initial(policy),
            fleet@.valid(),
    {
        FleetDispatcher {
            policy,
            stats: DispatchStats::default(),
            queue: VecDeque::new(),
            flusher: Phase::Idle,
            closing: false,
        }
    }

    /// The policy that the dispatcher was made with.
    pub fn policy(&self) -> (policy: RoutingPolicy)
        ensures
            policy == self@.policy,
    {
        self.policy
    }

    /// The counters.
    pub fn stats(&self) -> (stats: &DispatchStats)
        ensures
            *stats == self@.stats,
    {
        &self.stats
    }

    /// Whether a shutdown has been requested.
    pub fn is_closing(&self) -> (closing: bool)
        ensures
            closing == self@.closing,
    {
        self.closing
    }

    /// Whether a batch is with the backend.
    pub fn is_submitting(&self) -> (submitting: bool)
        ensures
            submitting == (self@.phase is Submitting),
    {
        match self.flusher {
            Phase::Submitting { .. } => true,
            _ => false,
        }
    }

    /// Begin a submission. Use the builder to set latency budget / forcing.
    pub fn submit(&self, params: Value) -> (builder: SubmitBuilder)
        ensures
            builder@ == (SubmitView {
                params,
                latency_budget_ms: None,
                force_sync: false,
                force_batch: false,
            }),
    {
        SubmitBuilder::new(params)
    }

    /// Puts a submission at the end of the queue, unless the flusher has stopped.
    pub fn enqueue(&mut self, request_id: String, params: Value, tx: T) -> (accepted: Result<
        (),
        BackendError,
    >)
        requires
            old(self)@.valid(),
        ensures
            final(self)@.valid(),
            accepted is Ok <==> !(old(self)@.phase is Stopped),
            accepted is Ok ==> final(self)@ == old(self)@.enqueued(
                PendingItem { request_id, params, tx },
            ),
            accepted matches Err(error) ==> error@ == closed_refusal() && final(self)@
                == old(self)@,
    {
        match self.flusher {
            Phase::Stopped => Err(BackendError::Other("dispatcher closed".to_string())),
            _ => {
                let item = PendingItem { request_id, params, tx };
                proof {
                    lemma_leading_push(self.queue@, Msg::Item(item));
                }
                self.queue.push_back(Msg::Item(item));
                Ok(())
            },
        }
    }

    /// Asks the flusher to drain pending work and stop. Subsequent submits will
    /// fail.
    pub fn shutdown(&mut self)
        requires
            old(self)@.valid(),
        ensures
            final(self)@ == old(self)@.shut_down(),
            final(self)@.valid(),
    {
        proof {
            lemma_leading_push(self.queue@, Msg::Shutdown);
        }
        self.closing = true;
        match self.flusher {
            Phase::Stopped => {},
            _ => {
                self.queue.push_back(Msg::Shutdown);
            },
        }
    }

    /// Gives the flusher up where it can run no more, as when the backend
    /// panicked under it. What is pending is dropped, and with it whatever its
    /// callers wait on; they are told so by [`crate::resolve_reply`].
    pub fn abandon(&mut self)
        ensures
            final(self)@ == old(self)@.abandoned(),
            final(self)@.valid(),
    {
        self.queue = VecDeque::new();
        self.flusher = Phase::Stopped;
    }

    /// Runs the flusher at `now` (nanoseconds on a clock that never runs back)
    /// until it needs something from outside.
    pub fn poll(&mut self, now: u64) -> (step: FlushStep<T>)
        requires
            old(self)@.valid(),
            !(old(self)@.phase is Submitting),
        ensures
            (final(self)@, step@) == old(self)@.polled(now as nat),
            final(self)@.valid(),
    {
        let mut phase = Phase::Idle;
        core::mem::swap(&mut phase, &mut self.flusher);
        match phase {
            Phase::Idle => match self.queue.pop_front() {
                None => FlushStep::Wait,
                Some(Msg::Item(first)) => {
                    let mut batch: Vec<PendingItem<T>> = Vec::new();
                    batch.push(first);
                    self.collect(batch, now, false, now)
                },
                Some(Msg::Shutdown) => self.drain(),
            },
            Phase::Collecting { batch, opened_at } => self.collect(batch, opened_at, true, now),
            Phase::Draining => self.drain(),
            _ => {
                self.flusher = Phase::Stopped;
                let nobody: Vec<(T, Outcome)> = Vec::new();
                proof {
                    assert(deliveries_view(nobody@) =~= Seq::empty());
                }
                FlushStep::Stop(nobody)
            },
        }
    }

    /// Fills `batch` up to its size or until the window is over or a shutdown
    /// comes.
    fn collect(
        &mut self,
        batch: Vec<PendingItem<T>>,
        opened_at: u64,
        waiting: bool,
        now: u64,
    ) -> (step: FlushStep<T>)
        requires
            1 <= batch@.len() <= old(self)@.policy.fill_target(),
            waiting ==> batch@.len() < old(self)@.policy.fill_target(),
            old(self)@.closing <==> has_shutdown(old(self)@.queue),
        ensures
            (final(self)@, step@) == old(self)@.collected(
                batch@,
                opened_at as nat,
                waiting,
                now as nat,
            ),
            final(self)@.valid(),
    {
        let window: u128 = self.policy.batch_window.as_nanos();
        let elapsed: u128 = now.saturating_sub(opened_at) as u128;
        let left: u128 = window.saturating_sub(elapsed);
        let mut batch = batch;
        let mut waiting = waiting;
        let ghost goal = self@.collected(batch@, opened_at as nat, waiting, now as nat);
        #[verifier::loop_isolation(false)]
        loop
            invariant
                left == window_left(self@.policy.window_nanos(), opened_at as nat, now as nat),
                1 <= batch@.len() <= self@.policy.fill_target(),
                waiting ==> batch@.len() < self@.policy.fill_target(),
                self@.closing <==> has_shutdown(self@.queue),
                self@.collected(batch@, opened_at as nat, waiting, now as nat) == goal,
            decreases self.queue@.len(),
        {
            let ghost before = self@;
            proof {
                assert(before.queue.skip(0) =~= before.queue);
            }
            if !waiting {
                let has_room = batch.len() < self.policy.batch_max_size && batch.len()
                    < self.policy.batch_min_size;
                if !has_room || left == 0 {
                    return self.begin_submit(batch, false);
                }
            }
            match self.queue.pop_front() {
                Some(Msg::Item(item)) => {
                    proof {
                        lemma_collect_one(
                            before,
                            batch@,
                            opened_at as nat,
                            waiting,
                            now as nat,
                            item,
                        );
                    }
                    batch.push(item);
                    waiting = false;
                },
                Some(Msg::Shutdown) => {
                    return self.begin_submit(batch, true);
                },
                None => {
                    if left == 0 {
                        return self.begin_submit(batch, false);
                    }
                    self.flusher = Phase::Collecting { batch, opened_at };
                    return FlushStep::WaitFor(left);
                },
            }
        }
    }

    /// Hands the requests of `batch` out for the backend.
    fn begin_submit(&mut self, batch: Vec<PendingItem<T>>, shutdown_seen: bool) -> (step: FlushStep<
        T,
    >)
        ensures
            (final(self)@, step@) == old(self)@.submitted(batch@, old(self)@.queue, shutdown_seen),
    {
        let mut requests: Vec<(String, Value)> = Vec::new();
        let n: usize = batch.len();
        for i in 0..n
            invariant
                n == batch@.len(),
                requests_view(requests@) == requests_of(batch@.take(i as int)),
        {
            let item = &batch[i];
            requests.push((item.request_id.clone(), item.params.clone()));
            proof {
                let request = (batch@[i as int].request_id@, batch@[i as int].params);
                assert(requests_of(batch@.take(i + 1)) =~= requests_of(
                    batch@.take(i as int),
                ).push(request));
            }
        }
        proof {
            assert(batch@.take(n as int) =~= batch@);
        }
        self.flusher = Phase::Submitting { batch, shutdown_seen };
        FlushStep::Submit(requests)
    }

    /// Refuses what is left in the queue, and stops.
    fn drain(&mut self) -> (step: FlushStep<T>)
        requires
            old(self)@.closing,
        ensures
            (final(self)@, step@) == old(self)@.drained(),
            final(self)@.valid(),
    {
        let mut deliveries: Vec<(T, Outcome)> = Vec::new();
        #[verifier::loop_isolation(false)]
        loop
            invariant
                self@ == (FleetView { queue: self@.queue, ..old(self)@ }),
                deliveries_view(deliveries@) + all_told(items_of(self@.queue), shutdown_refusal())
                    == all_told(items_of(old(self)@.queue), shutdown_refusal()),
            decreases self.queue@.len(),
        {
            match self.queue.pop_front() {
                Some(Msg::Item(item)) => {
                    deliveries.push(
                        (item.tx, Err(BackendError::Other("dispatcher shutdown".to_string()))),
                    );
                },
                Some(Msg::Shutdown) => {},
                None => {
                    proof {
                        assert(self.queue@ =~= Seq::empty());
                    }
                    self.flusher = Phase::Stopped;
                    return FlushStep::Stop(deliveries);
                },
            }
        }
    }

    /// Takes up the backend's reply to the batch, and says what to tell each of its
    /// callers.
    pub fn complete_batch(&mut self, reply: Result<BatchResults, BackendError>) -> (deliveries: Vec<
        (T, Outcome),
    >)
        requires
            old(self)@.valid(),
            old(self)@.phase is Submitting,
        ensures
            (final(self)@, deliveries_view(deliveries@)) == old(self)@.completed(
                reply_view(reply),
            ),
            final(self)@.valid(),
    {
        let mut phase = Phase::Idle;
        core::mem::swap(&mut phase, &mut self.flusher);
        match phase {
            Phase::Submitting { batch, shutdown_seen } => {
                if shutdown_seen {
                    self.flusher = Phase::Draining;
                }
                match reply {
                    Ok(results) => {
                        self.stats.record_batch(batch.len(), false);
                        hand_out_results(batch, results)
                    },
                    Err(error) => {
                        self.stats.record_batch(batch.len(), true);
                        hand_out_failure(batch, error)
                    },
                }
            },
            _ => Vec::new(),
        }
    }

    /// Counts a synchronous call that has come back, and passes its outcome on.
    pub fn complete_sync(&mut self, outcome: Outcome) -> (same: Outcome)
        requires
            old(self)@.valid(),
        ensures
            same == outcome,
            final(self)@ == old(self)@.sync_done(outcome is Err),
            final(self)@.valid(),
    {
        self.stats.record_sync(outcome.is_err());
        outcome
    }
}

/// Gives each item of `batch` its result out of `results`.
fn hand_out_results<T>(batch: Vec<PendingItem<T>>, results: BatchResults) -> (deliveries: Vec<
    (T, Outcome),
>)
    ensures
        deliveries_view(deliveries@) == batch_outcomes(batch@, Ok(results@)),
{
    let ghost items = batch@;
    let ghost all = results@;
    let mut results = results;
    let mut deliveries: Vec<(T, Outcome)> = Vec::new();
    for item in rest: batch
        invariant
            rest.seq() == items,
            deliveries@.len() == rest.index(),
            forall|i: int|
                0 <= i < deliveries@.len() ==> (#[trigger] deliveries_view(deliveries@)[i]) == (
                    items[i].tx,
                    result_for(all, items, i),
                ),
            forall|id: Seq<char>|
                #![trigger results@.contains_key(id)]
                results@.contains_key(id) <==> all.contains_key(id) && !(exists|j: int|
                    0 <= j < rest.index() && (#[trigger] items[j]).request_id@ == id),
            forall|id: Seq<char>|
                #![trigger results@[id]]
                results@.contains_key(id) ==> results@[id] == all[id],
    {
        let outcome = match results.remove(&item.request_id) {
            Some(outcome) => outcome,
            None => Err(BackendError::Other("no result".to_string())),
        };
        let ghost told = deliveries@;
        deliveries.push((item.tx, outcome));
        proof {
            assert(deliveries_view(deliveries@) =~= deliveries_view(told).push(
                (item.tx, outcome_view(outcome)),
            ));
        }
    }
    deliveries
}

/// Tells every item of `batch` that the batch failed.
fn hand_out_failure<T>(batch: Vec<PendingItem<T>>, error: BackendError) -> (deliveries: Vec<
    (T, Outcome),
>)
    ensures
        deliveries_view(deliveries@) == batch_outcomes(batch@, Err(error@)),
{
    let ghost items = batch@;
    let message = error.to_string();
    let mut deliveries: Vec<(T, Outcome)> = Vec::new();
    for item in rest: batch
        invariant
            rest.seq() == items,
            message@ == error@.message(),
            deliveries@.len() == rest.index(),
            forall|i: int|
                0 <= i < deliveries@.len() ==> (#[trigger] deliveries_view(deliveries@)[i]) == (
                    items[i].tx,
                    Err::<Value, ErrorView>(ErrorView::Provider(error@.message())),
                ),
    {
        let ghost told = deliveries@;
        deliveries.push((item.tx, Err(BackendError::Provider(message.clone()))));
        proof {
            assert(deliveries_view(deliveries@) =~= deliveries_view(told).push(
                (item.tx, Err(ErrorView::Provider(error@.message()))),
            ));
        }
    }
    deliveries
}

} // verus!
