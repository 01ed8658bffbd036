//! The shared-lock handle the engines of one dispatcher work against.

use vstd::prelude::*;

verus! {

/// Wrapper of `Arc<L>`, the shared lock protecting one piece of state.
///
/// A dispatcher is the composition point for the engines registered against
/// one lock: each registration takes a handle to the lock from here, builds
/// an engine loop around it, and merges that loop's completion into the
/// host's single "drive everything" future. The dispatcher does no work of
/// its own — the host must drive the registered loops for any scheduled
/// call to execute — and the combined future completes only once every
/// registered engine's loop has terminated. The future plumbing itself is
/// the host's; what the dispatcher owns and hands out is the lock.
pub struct Dispatcher<L> {
    lock: std::sync::Arc<L>,
}

/// Relies on Arc::clone: the result is a handle to the same value.
#[verifier::external_body]
fn arc_clone<L>(arc: &std::sync::Arc<L>) -> (r: std::sync::Arc<L>)
    ensures
        r == *arc,
{
    std::sync::Arc::clone(arc)
}

impl<L> Dispatcher<L> {
    /// A dispatcher around the given shared lock.
    pub fn new(lock: std::sync::Arc<L>) -> (d: Dispatcher<L>)
        ensures
            d.lock_handle() == lock,
    {
        Dispatcher { lock }
    }

    /// The lock this dispatcher was built around.
    pub closed spec fn lock_handle(&self) -> std::sync::Arc<L> {
        self.lock
    }

    /// A handle to the shared lock, for an engine loop to acquire around
    /// each single invocation.
    pub fn get_lock(&self) -> (r: std::sync::Arc<L>)
        ensures
            r == self.lock_handle(),
    {
        arc_clone(&self.lock)
    }
}

} // verus!
