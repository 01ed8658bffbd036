//! The producer-side handle that schedules deferred calls.

use crate::channel::try_send;
use crate::clock::now_millis;
use vstd::prelude::*;

verus! {

/// Deferred caller: the sending half of an engine's inbound channel.
///
/// A `Caller` enqueues `(due time, arguments)` records for one registered
/// operation; the engine behind the channel executes them once their due
/// time is reached. Callers are cheap to clone, and every clone feeds the
/// same engine. The default value carries no channel: scheduling through it
/// is a programming error, which the contracts here rule out, and which the
/// host must fail loudly on before it reaches this library.
#[derive(Clone)]
#[verifier::reject_recursive_types(A)]
pub struct Caller<A> {
    /// The sending half, or `None` for the detached default value.
    pub inner: Option<async_channel::Sender<(u64, A)>>,
}

impl<A> Caller<A> {
    /// A caller attached to the sending half of an engine's channel.
    pub fn attached(sender: async_channel::Sender<(u64, A)>) -> (c: Caller<A>)
        ensures
            c.inner == Some(sender),
    {
        Caller { inner: Some(sender) }
    }

    /// Schedule a call to the operation for due time "now".
    ///
    /// `Err` gives the scheduled arguments back: the record was not accepted
    /// because the engine behind the channel has already terminated.
    pub fn call(&self, args: A) -> (r: Result<(), A>)
        requires
            self.inner is Some,
        ensures
            r matches Err(a) ==> a == args,
    {
        match self.call_later(now_millis(), args) {
            Ok(()) => Ok(()),
            Err((_, a)) => Err(a),
        }
    }

    /// Schedule a call to the operation for the explicit due time `when`, in
    /// the milliseconds of [`crate::clock::now_millis`].
    ///
    /// `Err` gives the whole record back: the engine behind the channel has
    /// already terminated, and nothing was scheduled.
    pub fn call_later(&self, when: u64, args: A) -> (r: Result<(), (u64, A)>)
        requires
            self.inner is Some,
        ensures
            r matches Err(m) ==> m == (when, args),
    {
        match &self.inner {
            Some(sender) => try_send(sender, (when, args)),
            None => vstd::pervasive::unreached(),
        }
    }
}

impl<A> Default for Caller<A> {
    /// The detached caller: no engine is listening, and the contracts of
    /// [`Caller::call`] and [`Caller::call_later`] exclude it.
    fn default() -> (c: Caller<A>)
        ensures
            c.inner is None,
    {
        Caller { inner: None }
    }
}

} // verus!
