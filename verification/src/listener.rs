//! The handle by which a background event listener is told to stop.
use std::sync::atomic::AtomicBool;
use std::sync::Arc;
use vstd::prelude::*;

verus! {

/// Shared stop flag of a background event listener.
pub struct EventListenerHandle {
    shutdown: Arc<AtomicBool>,
}

impl EventListenerHandle {
    /// A handle over the listener's stop flag.
    pub fn new(shutdown: Arc<AtomicBool>) -> (r: Self)
        ensures
            r.flag() == shutdown,
    {
        EventListenerHandle { shutdown }
    }

    /// The stop flag the handle sets.
    pub closed spec fn flag(&self) -> Arc<AtomicBool> {
        self.shutdown
    }

    /// Tells the listener to stop by storing `true` in the shared flag; the flag it
    /// watches is the same one afterwards. What the flag holds is not stated: vstd
    /// specifies std's atomics without their contents.
    pub fn signal_shutdown(&mut self)
        ensures
            final(self).flag() == old(self).flag(),
    {
        self.shutdown.store(true, std::sync::atomic::Ordering::Relaxed);
    }
}

} // verus!
