//! Counters of what the dispatcher has done.

use vstd::prelude::*;

verus! {

/// Counters. Each wraps around at the largest `usize`.
#[derive(Debug, Clone, Copy)]
pub struct DispatchStats {
    /// Calls routed synchronously.
    pub sync_calls: usize,
    /// Calls routed via batch.
    pub batched_calls: usize,
    /// Total batches submitted.
    pub batches_submitted: usize,
    /// Errors observed.
    pub errors: usize,
}

impl DispatchStats {
    /// The counters after one synchronous call.
    pub open spec fn after_sync(self, failed: bool) -> DispatchStats {
        DispatchStats {
            sync_calls: self.sync_calls.wrapping_add(1),
            errors: if failed {
                self.errors.wrapping_add(1)
            } else {
                self.errors
            },
            ..self
        }
    }

    /// The counters after the submission of one batch of `calls` calls. They were
    /// routed via batch whether or not the batch failed.
    pub open spec fn after_batch(self, calls: usize, failed: bool) -> DispatchStats {
        DispatchStats {
            batches_submitted: self.batches_submitted.wrapping_add(1),
            batched_calls: self.batched_calls.wrapping_add(calls),
            errors: if failed {
                self.errors.wrapping_add(1)
            } else {
                self.errors
            },
            ..self
        }
    }

    /// Snapshot the counters as a tuple `(sync, batched, batches, errors)`.
    pub fn snapshot(&self) -> (counters: (usize, usize, usize, usize))
        ensures
            counters == (
                self.sync_calls,
                self.batched_calls,
                self.batches_submitted,
                self.errors,
            ),
    {
        (self.sync_calls, self.batched_calls, self.batches_submitted, self.errors)
    }

    /// Counts one synchronous call.
    pub fn record_sync(&mut self, failed: bool)
        ensures
            *final(self) == old(self).after_sync(failed),
    {
        self.sync_calls = self.sync_calls.wrapping_add(1);
        if failed {
            self.errors = self.errors.wrapping_add(1);
        }
    }

    /// Counts the submission of one batch of `calls` calls.
    pub fn record_batch(&mut self, calls: usize, failed: bool)
        ensures
            *final(self) == old(self).after_batch(calls, failed),
    {
        self.batches_submitted = self.batches_submitted.wrapping_add(1);
        self.batched_calls = self.batched_calls.wrapping_add(calls);
        if failed {
            self.errors = self.errors.wrapping_add(1);
        }
    }
}

impl Default for DispatchStats {
    fn default() -> (stats: Self)
        ensures
            stats == (DispatchStats {
                sync_calls: 0,
                batched_calls: 0,
                batches_submitted: 0,
                errors: 0,
            }),
    {
        DispatchStats { sync_calls: 0, batched_calls: 0, batches_submitted: 0, errors: 0 }
    }
}

} // verus!
