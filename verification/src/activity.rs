//! The activity history kept for the terminal interface: the most recent
//! events, so that a late subscriber sees what happened before it came.

use vstd::prelude::*;
use std::collections::VecDeque;
use crate::tui::LogEvent;

verus! {

/// How many events the history keeps.
pub const EVENT_HISTORY_CAPACITY: usize = 512;

/// The history after recording `e`: the events in order, the oldest
/// dropped beyond the capacity.
pub open spec fn after_record(h: Seq<LogEvent>, e: LogEvent) -> Seq<LogEvent> {
    let all = h.push(e);
    if all.len() > EVENT_HISTORY_CAPACITY {
        all.skip(all.len() - EVENT_HISTORY_CAPACITY)
    } else {
        all
    }
}

/// The most recent activity events, oldest first.
pub struct EventHistory {
    events: VecDeque<LogEvent>,
}

impl View for EventHistory {
    type V = Seq<LogEvent>;

    closed spec fn view(&self) -> Seq<LogEvent> {
        self.events@
    }
}

impl EventHistory {
    /// An empty history.
    pub fn new() -> (r: EventHistory)
        ensures
            r@.len() == 0,
    {
        EventHistory { events: VecDeque::new() }
    }

    /// Records an event, dropping the oldest ones beyond the capacity.
    pub fn record(&mut self, event: LogEvent)
        ensures
            final(self)@ == after_record(old(self)@, event),
    {
        self.events.push_back(event);
        let ghost all = self.events@;
        while self.events.len() > EVENT_HISTORY_CAPACITY
            invariant
                all == old(self)@.push(event),
                all.len() >= self.events@.len(),
                self.events@ == all.skip(all.len() - self.events@.len()),
                self.events@.len() >= EVENT_HISTORY_CAPACITY || self.events@ == all,
            decreases self.events@.len(),
        {
            let ghost before = self.events@;
            let _ = self.events.pop_front();
            proof {
                assert(self.events@ =~= all.skip(all.len() - self.events@.len()));
            }
        }
        proof {
            if all.len() > EVENT_HISTORY_CAPACITY {
                assert(self.events@.len() == EVENT_HISTORY_CAPACITY);
            } else {
                assert(self.events@ =~= all);
            }
        }
    }

    /// Number of events kept.
    pub fn len(&self) -> (r: usize)
        ensures
            r == self@.len(),
    {
        self.events.len()
    }

    /// A copy of the events, oldest first.
    pub fn snapshot(&self) -> (r: Vec<LogEvent>)
        ensures
            r@.len() == self@.len(),
            forall|i: int|
                0 <= i < r@.len() ==> r@[i].level == self@[i].level && r@[i].kind == self@[i].kind
                    && r@[i].message@ == self@[i].message@,
    {
        let mut out: Vec<LogEvent> = Vec::new();
        let mut i: usize = 0;
        while i < self.events.len()
            invariant
                i <= self.events@.len(),
                out@.len() == i,
                forall|k: int|
                    0 <= k < i ==> out@[k].level == self.events@[k].level && out@[k].kind
                        == self.events@[k].kind && out@[k].message@ == self.events@[k].message@,
            decreases self.events@.len() - i,
        {
            let e = &self.events[i];
            out.push(LogEvent { level: e.level, kind: e.kind, message: e.message.clone() });
            i += 1;
        }
        out
    }
}

/// The history never holds more than its capacity, and the newest event is
/// always the last one recorded.
pub proof fn lemma_history_bounded(h: Seq<LogEvent>, e: LogEvent)
    requires
        h.len() <= EVENT_HISTORY_CAPACITY,
    ensures
        after_record(h, e).len() <= EVENT_HISTORY_CAPACITY,
        after_record(h, e).last() == e,
{
}

} // verus!
