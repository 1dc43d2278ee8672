//! A single-slot wake primitive: a doorbell, not a semaphore.
//!
//! The state is one trigger flag and one registered-waiter slot.  Repeated
//! triggers before a wait collapse into a single wake; a wait consumes the
//! trigger.  In the running system the flag is an atomic and the slot holds
//! a waker, with the waiter registered strictly before the flag is checked
//! and cleared, so that a trigger arriving between the two steps is never
//! lost; this module carries the protocol state those operations maintain.

use vstd::prelude::*;

verus! {

/// The wake primitive: one trigger flag, one waiter slot.
pub struct Notification {
    pub triggered: bool,
    pub registered: bool,
}

/// The state after a trigger: the flag is set, and the parked waiter (if
/// any) has been woken, which empties the slot.
pub open spec fn notified(s: Notification) -> Notification {
    Notification { triggered: true, registered: false }
}

/// The state after `k` consecutive triggers.
pub open spec fn notify_n(s: Notification, k: nat) -> Notification
    decreases k,
{
    if k == 0 {
        s
    } else {
        notified(notify_n(s, (k - 1) as nat))
    }
}

/// One poll of a wait: the caller parks in the waiter slot, then checks and
/// clears the trigger.  Yields the new state and whether the wait resolved.
pub open spec fn poll_step(s: Notification) -> (Notification, bool) {
    if s.triggered {
        (Notification { triggered: false, registered: false }, true)
    } else {
        (Notification { triggered: false, registered: true }, false)
    }
}

/// The state after `k` polls of a wait.
pub open spec fn poll_n(s: Notification, k: nat) -> Notification
    decreases k,
{
    if k == 0 {
        s
    } else {
        poll_step(poll_n(s, (k - 1) as nat)).0
    }
}

impl Notification {
    /// Whether the trigger flag is set.
    pub open spec fn is_triggered(&self) -> bool {
        self.triggered
    }

    /// Whether a waiter is parked in the slot.
    pub open spec fn has_waiter(&self) -> bool {
        self.registered
    }

    pub fn new() -> (n: Notification)
        ensures
            !n.is_triggered(),
            !n.has_waiter(),
    {
        Notification { triggered: false, registered: false }
    }

    /// Clears the trigger and empties the waiter slot without waking anyone.
    pub fn reset(&mut self)
        ensures
            !final(self).is_triggered(),
            !final(self).has_waiter(),
    {
        self.triggered = false;
        self.registered = false;
    }

    /// Sets the trigger and wakes the parked waiter if there is one.
    /// Idempotent: any number of calls before a wait leave one pending wake.
    pub fn notify(&mut self)
        ensures
            *final(self) == notified(*old(self)),
            final(self).is_triggered(),
            !final(self).has_waiter(),
    {
        self.triggered = true;
        self.registered = false;
    }

    /// Reads the trigger flag without consuming it.
    pub fn triggered(&self) -> (r: bool)
        ensures
            r == self.is_triggered(),
    {
        self.triggered
    }

    /// One poll of a wait: parks the caller, then consumes the trigger if it
    /// is set.  Returns whether the wait resolved; a pending caller stays
    /// parked and is polled again after the next trigger.
    pub fn wait(&mut self) -> (ready: bool)
        ensures
            (*final(self), ready) == poll_step(*old(self)),
            ready == old(self).is_triggered(),
            !final(self).is_triggered(),
    {
        self.registered = true;
        if self.triggered {
            self.triggered = false;
            self.registered = false;
            true
        } else {
            false
        }
    }
}

impl Default for Notification {
    /// The initial state: no trigger, no waiter.
    fn default() -> (n: Notification)
        ensures
            !n.is_triggered(),
            !n.has_waiter(),
    {
        Notification::new()
    }
}

/// Notification coalescing: any positive number of triggers collapses into
/// the single-trigger state, so exactly one wait resolves afterwards — the
/// first poll is ready and consumes the trigger, and the poll after that is
/// pending again.
pub proof fn lemma_notify_coalesces(s: Notification, k: nat)
    requires
        k >= 1,
    ensures
        notify_n(s, k) == notified(s),
        poll_step(notify_n(s, k)).1,
        !poll_step(poll_step(notify_n(s, k)).0).1,
    decreases k,
{
    if k > 1 {
        lemma_notify_coalesces(s, (k - 1) as nat);
    }
}

/// A wait with no prior trigger never resolves: from an untriggered state,
/// any number of polls leaves the state untriggered, and the next poll is
/// still pending.
pub proof fn lemma_wait_needs_notify(s: Notification, k: nat)
    requires
        !s.is_triggered(),
    ensures
        !poll_n(s, k).is_triggered(),
        !poll_step(poll_n(s, k)).1,
    decreases k,
{
    if k > 0 {
        lemma_wait_needs_notify(s, (k - 1) as nat);
    }
}

} // verus!
