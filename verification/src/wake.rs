use vstd::prelude::*;

verus! {

/// A coalescing wake signal for event-loop integrations.
///
/// Notifications are level-triggered: several `notify` calls before a
/// `try_take` collapse into one pending signal. Waiting does not consume the
/// signal; `try_take` is the explicit acknowledgement. The signal has a
/// single owner: it is not `Clone`, so no copy can hold a level of its own.
#[derive(Debug)]
pub struct WakeSignal {
    pending: bool,
}

impl View for WakeSignal {
    type V = bool;

    /// Whether a notification is pending.
    closed spec fn view(&self) -> bool {
        self.pending
    }
}

impl WakeSignal {
    /// Creates a clear signal.
    pub fn new() -> (s: Self)
        ensures
            !s@,
    {
        WakeSignal { pending: false }
    }

    /// Marks the signal pending.
    pub fn notify(&mut self)
        ensures
            final(self)@,
    {
        self.pending = true;
    }

    /// Returns and clears the pending level.
    pub fn try_take(&mut self) -> (was_pending: bool)
        ensures
            was_pending == old(self)@,
            !final(self)@,
    {
        let was_pending = self.pending;
        self.pending = false;
        was_pending
    }

    /// Returns whether a notification is pending without consuming it.
    pub fn is_pending(&self) -> (pending: bool)
        ensures
            pending == self@,
    {
        self.pending
    }

    /// Waits until the signal is pending. The signal is owned exclusively by
    /// the caller, so nothing can raise it during the wait: the call is only
    /// meaningful once a notification has already arrived.
    pub fn wait(&self)
        requires
            self@,
    {
    }

    /// Reports whether the signal is pending within `timeout`. With exclusive
    /// ownership no notification can arrive during the wait, so the answer is
    /// the current level, and a clear signal is reported at once.
    pub fn wait_timeout(&self, timeout: std::time::Duration) -> (pending: bool)
        ensures
            pending == self@,
    {
        self.pending
    }
}

impl Default for WakeSignal {
    fn default() -> (s: Self)
        ensures
            !s@,
    {
        Self::new()
    }
}

} // verus!
