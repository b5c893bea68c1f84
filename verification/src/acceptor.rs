//! The connection acceptor's bookkeeping: a counter of live connection tasks
//! under a fixed cap. A connection is admitted only below the cap, so no more
//! than the cap's worth of tasks ever exist at once; each task releases its
//! slot when it ends, whatever its outcome.

use vstd::prelude::*;

verus! {

/// How many concurrent connections the proxy serves at most.
pub const MAX_CONNECTIONS: usize = 1024;

/// The count of live connection tasks, never above the cap.
pub struct ConnectionTracker {
    active: usize,
    cap: usize,
}

impl ConnectionTracker {
    pub closed spec fn spec_active(&self) -> usize {
        self.active
    }

    pub closed spec fn spec_cap(&self) -> usize {
        self.cap
    }

    /// At no time do more live tasks exist than the cap allows.
    pub open spec fn wf(&self) -> bool {
        self.spec_active() <= self.spec_cap()
    }

    pub fn new(cap: usize) -> (r: Self)
        ensures
            r.spec_active() == 0,
            r.spec_cap() == cap,
            r.wf(),
    {
        ConnectionTracker { active: 0, cap }
    }

    pub fn active(&self) -> (r: usize)
        ensures
            r == self.spec_active(),
    {
        self.active
    }

    /// Admits one connection when below the cap; a full tracker admits none,
    /// so the cap is never exceeded.
    pub fn try_acquire(&mut self) -> (admitted: bool)
        requires
            old(self).wf(),
        ensures
            final(self).wf(),
            final(self).spec_cap() == old(self).spec_cap(),
            admitted ==> old(self).spec_active() < old(self).spec_cap()
                && final(self).spec_active() == old(self).spec_active() + 1,
            !admitted ==> old(self).spec_active() == old(self).spec_cap()
                && final(self).spec_active() == old(self).spec_active(),
    {
        if self.active < self.cap {
            self.active = self.active + 1;
            true
        } else {
            false
        }
    }

    /// Releases one connection's slot when its task ends, whatever the
    /// outcome.
    pub fn release(&mut self)
        requires
            old(self).wf(),
        ensures
            final(self).wf(),
            final(self).spec_cap() == old(self).spec_cap(),
            old(self).spec_active() > 0 ==> final(self).spec_active() == old(self).spec_active()
                - 1,
            old(self).spec_active() == 0 ==> final(self).spec_active() == 0,
    {
        if self.active > 0 {
            self.active = self.active - 1;
        }
    }
}

} // verus!
