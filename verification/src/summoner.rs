//! Request/response convenience on top of [`Caller`].

use crate::caller::Caller;
use vstd::prelude::*;

verus! {

/// Deferred caller with a built-in reply pipe.
///
/// When the operation's last parameter is an `async_channel::Sender`, a
/// [`Caller`] can be turned into a `Summoner`: each summoning schedules a
/// call for due time "now" with a clone of the reply sender appended to the
/// arguments, and the producer then awaits exactly one value on the reply
/// receiver. The reply channel holds a single slot, so at most one reply is
/// ever buffered per summoner; the operation must send exactly one reply per
/// invocation, or the producer's wait never ends.
#[verifier::reject_recursive_types(A)]
#[verifier::reject_recursive_types(R)]
pub struct Summoner<A, R> {
    /// The sending half of the reply pipe, cloned into each scheduled call.
    pub reply_tx: async_channel::Sender<R>,
    /// The receiving half of the reply pipe, read once per summoning.
    pub reply_rx: async_channel::Receiver<R>,
    /// The caller the calls are scheduled through.
    pub inner: Caller<(A, async_channel::Sender<R>)>,
}

impl<A, R> Summoner<A, R> {
    /// Pair `inner` with a fresh single-slot reply channel.
    pub fn new(inner: Caller<(A, async_channel::Sender<R>)>) -> (s: Summoner<A, R>)
        requires
            inner.inner is Some,
        ensures
            s.inner == inner,
    {
        let (reply_tx, reply_rx) = async_channel::bounded(1);
        Summoner { reply_tx, reply_rx, inner }
    }

    /// Schedule a call for due time "now" with a clone of the reply sender
    /// as its final argument. The host then awaits one value on
    /// [`Summoner::reply_rx`]: the value the operation sends for this very
    /// invocation, since no other invocation holds this summoner's sender.
    ///
    /// `Err` gives the arguments back: the engine has already terminated and
    /// nothing was scheduled, so no reply will come.
    pub fn dispatch(&self, args: A) -> (r: Result<(), A>)
        requires
            self.inner.inner is Some,
        ensures
            r matches Err(a) ==> a == args,
    {
        let reply = self.reply_tx.clone();
        match self.inner.call((args, reply)) {
            Ok(()) => Ok(()),
            Err((a, _)) => Err(a),
        }
    }
}

impl<A, R> Caller<(A, async_channel::Sender<R>)> {
    /// Turn this caller into a [`Summoner`].
    pub fn summoner(self) -> (s: Summoner<A, R>)
        requires
            self.inner is Some,
        ensures
            s.inner == self,
    {
        Summoner::new(self)
    }
}

} // verus!
