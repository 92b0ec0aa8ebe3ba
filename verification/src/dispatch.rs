use vstd::prelude::*;

verus! {

/// The bookkeeping of the bounded fan-out: a fixed capacity of concurrent
/// candidate pipelines, a grant taken before each is launched, and a
/// release the moment it completes, so a finished unit immediately frees
/// room for the next queued candidate.
pub struct Dispatcher {
    pub cap: usize,
    pub in_flight: usize,
}

impl Dispatcher {
    /// What holds in every reachable state: no more pipelines hold a grant
    /// than the configured cap allows.
    pub open spec fn wf(self) -> bool {
        &&& self.cap >= 1
        &&& self.in_flight <= self.cap
    }

    pub fn new(cap: usize) -> (d: Dispatcher)
        requires
            cap >= 1,
        ensures
            d.wf(),
            d.cap == cap,
            d.in_flight == 0,
    {
        Dispatcher { cap, in_flight: 0 }
    }

    /// Asks for room to launch one more pipeline: granted exactly when the
    /// fan-out is below its cap.
    pub fn try_acquire(&mut self) -> (granted: bool)
        requires
            old(self).wf(),
        ensures
            final(self).wf(),
            final(self).cap == old(self).cap,
            granted <==> old(self).in_flight < old(self).cap,
            granted ==> final(self).in_flight == old(self).in_flight + 1,
            !granted ==> final(self).in_flight == old(self).in_flight,
    {
        if self.in_flight < self.cap {
            self.in_flight = self.in_flight + 1;
            true
        } else {
            false
        }
    }

    /// Returns the grant of one completed pipeline.
    pub fn release(&mut self)
        requires
            old(self).wf(),
            old(self).in_flight >= 1,
        ensures
            final(self).wf(),
            final(self).cap == old(self).cap,
            final(self).in_flight == old(self).in_flight - 1,
    {
        self.in_flight = self.in_flight - 1;
    }
}

/// The concurrency bound: at no reachable point do more candidate
/// pipelines hold a grant than the configured cap.
pub proof fn lemma_cap_bounds_in_flight(d: Dispatcher)
    requires
        d.wf(),
    ensures
        d.in_flight <= d.cap,
{
}

} // verus!
