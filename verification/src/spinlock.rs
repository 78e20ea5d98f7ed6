//! A lock taken and released through exclusive access.

use vstd::prelude::*;

verus! {

/// A lock that is either held or free.
pub struct SpinLock {
    locked: bool,
}

impl View for SpinLock {
    type V = bool;

    /// Whether the lock is held.
    closed spec fn view(&self) -> bool {
        self.locked
    }
}

impl SpinLock {
    /// A free lock.
    pub fn new() -> (lock: SpinLock)
        ensures
            !lock@,
    {
        SpinLock { locked: false }
    }

    /// Takes the lock. Whoever holds the only access to a held lock would
    /// wait for it forever, so the lock must be free.
    pub fn lock(&mut self)
        requires
            !old(self)@,
        ensures
            final(self)@,
    {
        self.locked = true;
    }

    /// Releases the lock.
    pub fn unlock(&mut self)
        ensures
            !final(self)@,
    {
        self.locked = false;
    }
}

} // verus!
