//! The bounded concurrency gate for external RAW conversions: a counting
//! limiter that never hands out more slots than its cap. Callers that fail
//! to acquire retry later; releasing is unconditional on every exit path.

use vstd::prelude::*;

verus! {

/// A bounded counting gate. `active` is the number of slots currently held.
pub struct Limiter {
    pub active: usize,
    pub cap: usize,
}

impl Limiter {
    /// Held slots stay within the cap.
    pub open spec fn wf(self) -> bool {
        self.active <= self.cap
    }

    /// A fresh gate with the given cap and no holders.
    pub fn new(cap: usize) -> (r: Limiter)
        ensures
            r.wf(),
            r.cap == cap,
            r.active == 0,
    {
        Limiter { active: 0, cap }
    }

    /// Takes a slot when one is free; never blocks. Exactly when every slot
    /// is taken, nothing changes and the caller must come back later.
    pub fn try_acquire(&mut self) -> (r: bool)
        requires
            old(self).wf(),
        ensures
            final(self).wf(),
            final(self).cap == old(self).cap,
            r ==> old(self).active < old(self).cap && final(self).active == old(self).active
                + 1,
            !r ==> old(self).active == old(self).cap && *final(self) == *old(self),
    {
        if self.active < self.cap {
            self.active = self.active + 1;
            true
        } else {
            false
        }
    }

    /// Gives a held slot back.
    pub fn release(&mut self)
        requires
            old(self).wf(),
            old(self).active > 0,
        ensures
            final(self).wf(),
            final(self).cap == old(self).cap,
            final(self).active == old(self).active - 1,
    {
        self.active = self.active - 1;
    }
}

/// The holder count after one gate event: an acquisition attempt takes a
/// slot only below the cap; a release gives one back when any is held.
pub open spec fn gate_step(active: nat, cap: nat, acquire: bool) -> nat {
    if acquire {
        if active < cap {
            (active + 1) as nat
        } else {
            active
        }
    } else {
        if active > 0 {
            (active - 1) as nat
        } else {
            active
        }
    }
}

/// The holder count after a whole history of gate events, oldest first.
pub open spec fn gate_run(cap: nat, events: Seq<bool>) -> nat
    decreases events.len(),
{
    if events.len() == 0 {
        0
    } else {
        gate_step(gate_run(cap, events.drop_last()), cap, events.last())
    }
}

/// Law: however many jobs contend and in whatever order acquisitions and
/// releases interleave, the number of held slots never exceeds the cap.
pub proof fn lemma_gate_never_exceeds_cap(cap: nat, events: Seq<bool>)
    ensures
        gate_run(cap, events) <= cap,
    decreases events.len(),
{
    if events.len() > 0 {
        lemma_gate_never_exceeds_cap(cap, events.drop_last());
    }
}

} // verus!
