//! Batching of file change events while serving: after the first event of a
//! batch the watcher waits until the events have been quiet for a moment,
//! but never longer than a fixed time after the batch began. Times are in
//! milliseconds on a monotonic clock.

use vstd::prelude::*;

verus! {

/// How long the events must be quiet before a batch is applied.
pub const DEBOUNCE_MS: u64 = 100;

/// The longest a batch waits after its first event.
pub const MAX_DEBOUNCE_MS: u64 = 500;

/// A batch of file events being collected.
#[derive(Clone, Copy, Debug)]
pub struct Debounce {
    /// When the first event of the batch arrived
    pub batch_start: u64,
    /// When the batch is applied if no other event arrives
    pub deadline: u64,
}

impl Debounce {
    /// Starts a batch at its first event, at time `now`.
    pub fn start(now: u64) -> (r: Debounce)
        requires
            now + MAX_DEBOUNCE_MS <= u64::MAX,
        ensures
            r.batch_start == now,
            r.deadline == now + DEBOUNCE_MS,
    {
        Debounce { batch_start: now, deadline: now + DEBOUNCE_MS }
    }

    /// Another event of the batch arrived at time `now`: the quiet period
    /// starts again.
    pub fn event(&mut self, now: u64)
        requires
            now + DEBOUNCE_MS <= u64::MAX,
        ensures
            final(self).batch_start == old(self).batch_start,
            final(self).deadline == now + DEBOUNCE_MS,
    {
        self.deadline = now + DEBOUNCE_MS;
    }

    /// When the batch is applied unless another event arrives first: the
    /// end of the quiet period, or the longest wait, whichever is earlier.
    pub fn wake_at(&self) -> (r: u64)
        requires
            self.batch_start + MAX_DEBOUNCE_MS <= u64::MAX,
        ensures
            r == (if self.deadline < self.batch_start + MAX_DEBOUNCE_MS {
                self.deadline
            } else {
                (self.batch_start + MAX_DEBOUNCE_MS) as u64
            }),
            r <= self.batch_start + MAX_DEBOUNCE_MS,
            r <= self.deadline,
    {
        let max_deadline = self.batch_start + MAX_DEBOUNCE_MS;
        if self.deadline < max_deadline {
            self.deadline
        } else {
            max_deadline
        }
    }
}

} // verus!
