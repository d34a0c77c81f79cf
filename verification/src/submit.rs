//! One submission, from its options to its route.

use serde_json::Value;
use vstd::prelude::*;

use crate::backend::{BackendError, ErrorView, Outcome, outcome_view};
use crate::dispatcher::FleetDispatcher;
use crate::flusher::{FleetView, closed_refusal};
use crate::policy::RoutingPolicy;
use crate::queue::PendingItem;
use crate::trusted::{fresh_request_id, is_request_id};

verus! {

/// Builder returned by [`FleetDispatcher::submit`].
pub struct SubmitBuilder {
    params: Value,
    latency_budget_ms: Option<u64>,
    force_sync: bool,
    force_batch: bool,
}

/// What a submission consists of.
pub struct SubmitView {
    /// The request itself.
    pub params: Value,
    /// How long the caller is willing to wait, if the caller said so.
    pub latency_budget_ms: Option<u64>,
    /// Whether synchronous routing is forced.
    pub force_sync: bool,
    /// Whether batch routing is forced.
    pub force_batch: bool,
}

impl SubmitView {
    /// Whether the submission is sent to the backend at once. Forcing decides,
    /// synchronous before batch; otherwise a budget within the policy's limit.
    pub open spec fn routes_sync(self, policy: RoutingPolicy) -> bool {
        ||| self.force_sync
        ||| {
            &&& !self.force_batch
            &&& self.latency_budget_ms is Some
            &&& self.latency_budget_ms->0 <= policy.sync_max_latency_ms
        }
    }

    /// Whether the submission fails as soon as it is sent: a synchronous one once
    /// a shutdown has been requested, another one once the flusher has stopped.
    pub open spec fn refused_by<T>(self, fleet: FleetView<T>) -> bool {
        if self.routes_sync(fleet.policy) {
            fleet.closing
        } else {
            fleet.phase is Stopped
        }
    }
}

impl View for SubmitBuilder {
    type V = SubmitView;

    closed spec fn view(&self) -> SubmitView {
        SubmitView {
            params: self.params,
            latency_budget_ms: self.latency_budget_ms,
            force_sync: self.force_sync,
            force_batch: self.force_batch,
        }
    }
}

/// What the embedding program has to do for a submission.
pub enum SendStep {
    /// Give this request to the backend, and its reply to
    /// [`FleetDispatcher::complete_sync`].
    CallBackend(Value),
    /// Wait for the outcome; the flusher will hand it out.
    Queued,
    /// Tell the caller that the submission failed.
    Refused(BackendError),
}

impl SubmitBuilder {
    /// A submission without options.
    pub(crate) fn new(params: Value) -> (builder: Self)
        ensures
            builder@ == (SubmitView {
                params,
                latency_budget_ms: None,
                force_sync: false,
                force_batch: false,
            }),
    {
        SubmitBuilder { params, latency_budget_ms: None, force_sync: false, force_batch: false }
    }

    /// Hint at a latency budget. Within `policy.sync_max_latency_ms` it means
    /// synchronous routing. No hint means batch routing (subject to forcing).
    pub fn latency_budget_ms(self, ms: u64) -> (builder: Self)
        ensures
            builder@ == (SubmitView { latency_budget_ms: Some(ms), ..self@ }),
    {
        SubmitBuilder { latency_budget_ms: Some(ms), ..self }
    }

    /// Force synchronous routing.
    pub fn sync(self) -> (builder: Self)
        ensures
            builder@ == (SubmitView { force_sync: true, ..self@ }),
    {
        SubmitBuilder { force_sync: true, ..self }
    }

    /// Force batch routing.
    pub fn batch(self) -> (builder: Self)
        ensures
            builder@ == (SubmitView { force_batch: true, ..self@ }),
    {
        SubmitBuilder { force_batch: true, ..self }
    }

    /// Whether the submission is sent to the backend at once under `policy`.
    pub fn routes_sync(&self, policy: &RoutingPolicy) -> (sync: bool)
        ensures
            sync == self@.routes_sync(*policy),
    {
        self.force_sync || (!self.force_batch && match self.latency_budget_ms {
            Some(ms) => ms <= policy.sync_max_latency_ms,
            None => false,
        })
    }

    /// Sends the submission on its route. `tx` is where its outcome goes if it is
    /// pooled into a batch. Once a shutdown has been requested no submission
    /// succeeds: a synchronous one is refused here, a pooled one by the flusher, or
    /// here if the flusher has stopped.
    pub fn send<T>(self, fleet: &mut FleetDispatcher<T>, tx: T) -> (step: SendStep)
        requires
            old(fleet)@.valid(),
        ensures
            final(fleet)@.valid(),
            self@.refused_by(old(fleet)@) ==> {
                &&& step matches SendStep::Refused(error) && error@ == closed_refusal()
                &&& final(fleet)@ == old(fleet)@
            },
            !self@.refused_by(old(fleet)@) && self@.routes_sync(old(fleet)@.policy) ==> {
                &&& step == SendStep::CallBackend(self@.params)
                &&& final(fleet)@ == old(fleet)@
            },
            !self@.refused_by(old(fleet)@) && !self@.routes_sync(old(fleet)@.policy) ==> {
                &&& step == SendStep::Queued
                &&& exists|request_id: String| #[trigger]
                    is_request_id(request_id@) && final(fleet)@ == old(fleet)@.enqueued(
                        PendingItem { request_id, params: self@.params, tx },
                    )
            },
    {
        if self.routes_sync(&fleet.policy()) {
            if fleet.is_closing() {
                SendStep::Refused(BackendError::Other("dispatcher closed".to_string()))
            } else {
                SendStep::CallBackend(self.params)
            }
        } else {
            match fleet.enqueue(fresh_request_id(), self.params, tx) {
                Ok(()) => SendStep::Queued,
                Err(error) => SendStep::Refused(error),
            }
        }
    }
}

/// What the caller of a pooled submission is told: what the flusher handed out,
/// or, if it went away without doing so, that.
pub fn resolve_reply(reply: Option<Outcome>) -> (outcome: Outcome)
    ensures
        reply matches Some(told) ==> outcome == told,
        reply is None ==> outcome_view(outcome) == Err::<Value, ErrorView>(
            ErrorView::Other("dispatcher dropped result"@),
        ),
{
    match reply {
        Some(told) => told,
        None => Err(BackendError::Other("dispatcher dropped result".to_string())),
    }
}

} // verus!
