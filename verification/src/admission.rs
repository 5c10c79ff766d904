//! Bounded admission control: a fixed-capacity permit pool that caps the
//! number of requests concurrently in flight.
//!
//! A caller asks for a permit before handling a request; when none is free
//! the request is answered Busy at once rather than queued. Every granted
//! permit is released when its request reaches a terminal response, so the
//! pool returns to nominal after any burst.

use vstd::prelude::*;

verus! {

/// The permit pool. Its capacity is fixed at construction; the number of
/// permits out never exceeds it.
pub struct AdmissionController {
    capacity: u64,
    in_flight: u64,
}

impl AdmissionController {
    /// The fixed number of permits the pool was sized with.
    pub closed spec fn spec_capacity(self) -> u64 {
        self.capacity
    }

    /// The number of permits currently out.
    pub closed spec fn spec_in_flight(self) -> u64 {
        self.in_flight
    }

    /// The pool never hands out more permits than its capacity.
    pub open spec fn wf(self) -> bool {
        self.spec_in_flight() <= self.spec_capacity()
    }

    /// How one admission decision relates the pool before and after it:
    /// a permit is granted exactly when one is free, a grant takes one
    /// permit, and a denial leaves the pool untouched.
    pub open spec fn admission_decision(pre: Self, post: Self, granted: bool) -> bool {
        &&& post.spec_capacity() == pre.spec_capacity()
        &&& granted == (pre.spec_in_flight() < pre.spec_capacity())
        &&& if granted {
            post.spec_in_flight() == pre.spec_in_flight() + 1
        } else {
            post == pre
        }
    }

    /// How releasing one permit relates the pool before and after it.
    pub open spec fn permit_release(pre: Self, post: Self) -> bool {
        &&& post.spec_capacity() == pre.spec_capacity()
        &&& post.spec_in_flight() == pre.spec_in_flight() - 1
    }

    /// A complete request round: an admission decision followed, exactly
    /// when a permit was granted, by its release.
    pub open spec fn request_round(pre: Self, post: Self) -> bool {
        exists|mid: Self, granted: bool|
            {
                &&& #[trigger] Self::admission_decision(pre, mid, granted)
                &&& if granted {
                    Self::permit_release(mid, post)
                } else {
                    post == mid
                }
            }
    }

    /// A fresh pool with the given capacity and no permit out.
    pub fn new(capacity: u64) -> (c: Self)
        ensures
            c.spec_capacity() == capacity,
            c.spec_in_flight() == 0,
            c.wf(),
    {
        AdmissionController { capacity, in_flight: 0 }
    }

    /// Grants a permit exactly when one is free, without ever waiting:
    /// a caller that is denied must answer Busy, not queue.
    pub fn try_acquire(&mut self) -> (granted: bool)
        requires
            old(self).wf(),
        ensures
            final(self).wf(),
            Self::admission_decision(*old(self), *final(self), granted),
    {
        if self.in_flight < self.capacity {
            self.in_flight = self.in_flight + 1;
            true
        } else {
            false
        }
    }

    /// Returns one granted permit to the pool; called on every terminal
    /// transition of a request that was admitted.
    pub fn release(&mut self)
        requires
            old(self).wf(),
            old(self).spec_in_flight() > 0,
        ensures
            final(self).wf(),
            Self::permit_release(*old(self), *final(self)),
    {
        self.in_flight = self.in_flight - 1;
    }

    /// The number of permits still free.
    pub fn available(&self) -> (n: u64)
        requires
            self.wf(),
        ensures
            n == self.spec_capacity() - self.spec_in_flight(),
    {
        self.capacity - self.in_flight
    }

    /// One request round never leaks a permit: after an admission decision
    /// and, exactly when a permit was granted, its release, the number of
    /// permits out is what it was before the round, and a denied request
    /// changes nothing at all.
    pub proof fn lemma_round_no_permit_leak(pre: Self, mid: Self, post: Self, granted: bool)
        requires
            Self::admission_decision(pre, mid, granted),
            granted ==> Self::permit_release(mid, post),
            !granted ==> post == mid,
        ensures
            post.spec_in_flight() == pre.spec_in_flight(),
            post.spec_capacity() == pre.spec_capacity(),
            !granted ==> pre.spec_in_flight() >= pre.spec_capacity(),
    {
    }

    /// A burst of any number of complete request rounds returns the pool to
    /// nominal: the permits out at the end equal the permits out at the
    /// start, whatever mixture of grants and denials the burst saw.
    pub proof fn lemma_burst_no_permit_leak(states: Seq<Self>)
        requires
            states.len() > 0,
            forall|i: int|
                0 <= i < states.len() - 1 ==> #[trigger] Self::request_round(
                    states[i],
                    states[i + 1],
                ),
        ensures
            states.last().spec_in_flight() == states.first().spec_in_flight(),
            states.last().spec_capacity() == states.first().spec_capacity(),
        decreases states.len(),
    {
        if states.len() > 1 {
            let prefix = states.drop_last();
            assert forall|i: int| 0 <= i < prefix.len() - 1 implies #[trigger] Self::request_round(
                prefix[i],
                prefix[i + 1],
            ) by {
                assert(Self::request_round(states[i], states[i + 1]));
            }
            Self::lemma_burst_no_permit_leak(prefix);
            assert(Self::request_round(states[states.len() - 2], states[states.len() - 2 + 1]));
            assert(states.last() == states[states.len() - 1]);
            let (mid, granted): (Self, bool) = choose|mid: Self, granted: bool|
                {
                    &&& #[trigger] Self::admission_decision(
                        states[states.len() - 2],
                        mid,
                        granted,
                    )
                    &&& if granted {
                        Self::permit_release(mid, states.last())
                    } else {
                        states.last() == mid
                    }
                };
            Self::lemma_round_no_permit_leak(states[states.len() - 2], mid, states.last(), granted);
        }
    }
}

} // verus!
