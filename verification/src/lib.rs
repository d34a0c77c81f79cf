//! Fleet-level batch dispatcher for LLM APIs.
//!
//! Requests from many callers are pooled. Each is routed to the provider's
//! synchronous API (low latency) or to its batch API (discounted), as its latency
//! budget and the [`RoutingPolicy`] say.
//!
//! The library decides and keeps the books; it does not wait and calls nobody.
//! A program around it owns the clock, the backend and the channels to the callers:
//!
//! - [`FleetDispatcher::submit`] begins a submission, and [`SubmitBuilder::send`]
//!   says what to do with it: call the backend, or wait for the flusher.
//! - [`FleetDispatcher::poll`] runs the flusher until it needs something: a message,
//!   some time, or the backend's reply to a batch.
//! - [`FleetDispatcher::complete_batch`] and [`FleetDispatcher::complete_sync`] take
//!   the backend's replies, and the former says what to tell which caller.
//! - [`FleetDispatcher::shutdown`] has the flusher drain pending work and stop.
//!
//! [`flusher`] describes the states of a dispatcher and what each call does to them;
//! [`effects`] proves what that comes to, call by call and over a run, and [`laws`]
//! what holds of the dispatcher as a whole.

pub mod backend;
pub mod dispatcher;
pub mod effects;
pub mod flusher;
pub mod laws;
pub mod policy;
pub mod queue;
pub mod stats;
pub mod submit;
pub mod trusted;

pub use crate::backend::{BackendError, BatchResults};
pub use crate::dispatcher::{FleetDispatcher, FlushStep};
pub use crate::policy::RoutingPolicy;
pub use crate::stats::DispatchStats;
pub use crate::submit::{resolve_reply, SendStep, SubmitBuilder};
