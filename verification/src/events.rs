//! Request events: one per dispatched request, carrying the wall-clock
//! timestamp, the method, the full URL, and whether the request was blocked.
//! A bounded, newest-first log keeps the most recent events.

use vstd::prelude::*;

verus! {

/// One request event, as broadcast to subscribers.
#[derive(Clone, Debug)]
pub struct Event {
    pub timestamp_ms: i64,
    pub method: String,
    pub url: String,
    pub is_request_blocked: bool,
}

/// Relies on chrono's `Utc::now`: milliseconds since the Unix epoch. Nothing
/// can be promised of the clock's reading.
#[verifier::external_body]
pub(crate) fn now_timestamp_millis() -> i64 {
    chrono::Utc::now().timestamp_millis()
}

/// A bounded log of events, newest first: pushing keeps the newest entries up
/// to the capacity.
pub struct RequestLog {
    entries: Vec<Event>,
    capacity: usize,
}

impl RequestLog {
    pub closed spec fn view(&self) -> Seq<Event> {
        self.entries@
    }

    pub closed spec fn spec_capacity(&self) -> usize {
        self.capacity
    }

    pub open spec fn wf(&self) -> bool {
        self@.len() <= self.spec_capacity()
    }

    pub fn new(capacity: usize) -> (r: Self)
        ensures
            r@ =~= Seq::<Event>::empty(),
            r.spec_capacity() == capacity,
            r.wf(),
    {
        RequestLog { entries: Vec::new(), capacity }
    }

    /// The newest event goes to the front; the oldest falls out beyond the
    /// capacity.
    pub fn push(&mut self, event: Event)
        requires
            old(self).wf(),
        ensures
            final(self).wf(),
            final(self).spec_capacity() == old(self).spec_capacity(),
            final(self)@ =~= (seq![event] + old(self)@).take(
                vstd::math::min(old(self).spec_capacity() as int, old(self)@.len() + 1int),
            ),
    {
        if self.capacity == 0 {
            return ;
        }
        if self.entries.len() == self.capacity {
            self.entries.truncate(self.capacity - 1);
        }
        self.entries.insert(0, event);
    }

    pub fn entries(&self) -> (r: &Vec<Event>)
        ensures
            r@ == self@,
    {
        &self.entries
    }
}

} // verus!
