use vstd::prelude::*;

verus! {

/// What a wake waiter does next.
#[derive(Clone, Copy, Debug, PartialEq, Eq, Structural)]
pub enum WaitStep {
    /// The sequence differs from the observed one: return it.
    Ready(u64),
    /// The wait facility is stopped: return `STOPPED`.
    Stopped,
    /// Another waiter is active: return `UNAVAILABLE`.
    Busy,
    /// Nothing changed yet: block until notified, then continue the wait.
    Block,
}

/// The decisions of the blocking wake wait: at most one active waiter, and a
/// permanent stop that ends every wait.
#[derive(Clone, Copy, Debug)]
pub struct WakeGate {
    stopped: bool,
    waiter_active: bool,
}

impl WakeGate {
    /// Whether waiters have been stopped.
    pub closed spec fn spec_stopped(&self) -> bool {
        self.stopped
    }

    /// Whether a waiter is blocked.
    pub closed spec fn spec_waiter_active(&self) -> bool {
        self.waiter_active
    }

    /// A gate with no waiter that has not been stopped.
    pub fn new() -> (g: Self)
        ensures
            !g.spec_stopped(),
            !g.spec_waiter_active(),
    {
        WakeGate { stopped: false, waiter_active: false }
    }

    /// Whether waiters have been stopped.
    pub fn is_stopped(&self) -> (b: bool)
        ensures
            b == self.spec_stopped(),
    {
        self.stopped
    }

    /// Whether a waiter is blocked.
    pub fn has_waiter(&self) -> (b: bool)
        ensures
            b == self.spec_waiter_active(),
    {
        self.waiter_active
    }

    /// Starts a wait for a sequence other than `observed`, the sequence now
    /// being `current`: a stopped gate answers `Stopped`, an active waiter
    /// makes this one `Busy`, a changed sequence is `Ready` at once, and
    /// otherwise the caller becomes the active waiter and blocks.
    pub fn begin(&mut self, current: u64, observed: u64) -> (step: WaitStep)
        ensures
            old(self).spec_stopped() ==> step == WaitStep::Stopped,
            !old(self).spec_stopped() && old(self).spec_waiter_active() ==> step == WaitStep::Busy,
            !old(self).spec_stopped() && !old(self).spec_waiter_active() && current != observed
                ==> step == WaitStep::Ready(current),
            !old(self).spec_stopped() && !old(self).spec_waiter_active() && current == observed
                ==> step == WaitStep::Block,
            final(self).spec_stopped() == old(self).spec_stopped(),
            final(self).spec_waiter_active() == (old(self).spec_waiter_active() || step
                == WaitStep::Block),
    {
        if self.stopped {
            WaitStep::Stopped
        } else if self.waiter_active {
            WaitStep::Busy
        } else if current != observed {
            WaitStep::Ready(current)
        } else {
            self.waiter_active = true;
            WaitStep::Block
        }
    }

    /// Continues the active wait after a notification: a stop ends it with
    /// `Stopped`, a changed sequence with `Ready`; otherwise it blocks again.
    pub fn resume(&mut self, current: u64, observed: u64) -> (step: WaitStep)
        requires
            old(self).spec_waiter_active(),
        ensures
            old(self).spec_stopped() ==> step == WaitStep::Stopped,
            !old(self).spec_stopped() && current != observed ==> step == WaitStep::Ready(current),
            !old(self).spec_stopped() && current == observed ==> step == WaitStep::Block,
            final(self).spec_stopped() == old(self).spec_stopped(),
            final(self).spec_waiter_active() == (step == WaitStep::Block),
    {
        if self.stopped {
            self.waiter_active = false;
            WaitStep::Stopped
        } else if current != observed {
            self.waiter_active = false;
            WaitStep::Ready(current)
        } else {
            WaitStep::Block
        }
    }

    /// Stops the wait facility, permanently; stopping again changes nothing.
    pub fn stop(&mut self)
        ensures
            final(self).spec_stopped(),
            final(self).spec_waiter_active() == old(self).spec_waiter_active(),
    {
        self.stopped = true;
    }
}

} // verus!
