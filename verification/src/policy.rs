//! When a call goes to the backend at once, and how calls are gathered into batches.

use std::time::Duration;

use vstd::prelude::*;

use crate::trusted::duration_nanos;

verus! {

/// Policy controlling sync vs batch routing decisions.
#[derive(Debug, Clone, Copy)]
pub struct RoutingPolicy {
    /// Latency budgets at or below this are sent synchronously.
    pub sync_max_latency_ms: u64,
    /// Window during which the dispatcher accumulates a batch.
    pub batch_window: Duration,
    /// Submit early once the batch has at least this many items.
    pub batch_min_size: usize,
    /// Hard cap; submit immediately when reached.
    pub batch_max_size: usize,
}

impl RoutingPolicy {
    /// The preset: budgets up to five seconds are synchronous; a batch is open for
    /// thirty seconds, goes out at one item and never holds more than a hundred.
    pub open spec fn is_preset(self) -> bool {
        &&& self.sync_max_latency_ms == 5_000
        &&& duration_nanos(self.batch_window) == 30_000_000_000
        &&& self.batch_min_size == 1
        &&& self.batch_max_size == 100
    }

    /// The number of items at which a batch stops growing: the smaller of the two
    /// sizes, but a batch holds at least the item that opened it.
    pub open spec fn fill_target(self) -> nat {
        let limit = if self.batch_min_size <= self.batch_max_size {
            self.batch_min_size
        } else {
            self.batch_max_size
        };
        if limit == 0 {
            1
        } else {
            limit as nat
        }
    }

    /// How many nanoseconds a batch stays open.
    pub open spec fn window_nanos(self) -> nat {
        duration_nanos(self.batch_window)
    }

    /// Cost-aware preset (alias for `default`).
    pub fn cost_aware() -> (policy: Self)
        ensures
            policy.is_preset(),
    {
        Self::default()
    }
}

impl Default for RoutingPolicy {
    fn default() -> (policy: Self)
        ensures
            policy.is_preset(),
    {
        RoutingPolicy {
            sync_max_latency_ms: 5_000,
            batch_window: Duration::from_secs(30),
            batch_min_size: 1,
            batch_max_size: 100,
        }
    }
}

} // verus!
