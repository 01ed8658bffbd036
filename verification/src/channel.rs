//! Trusted declarations for the channel the engines receive on.
//!
//! The inbound channel carrying scheduled records from producers to an
//! engine, and the single-slot reply channel of a [`crate::Summoner`], come
//! from the `async_channel` crate. What a channel holds is shared between
//! tasks and is not modelled here; only what each call returns is stated.

use vstd::prelude::*;

verus! {

#[verifier::external_type_specification]
#[verifier::external_body]
#[verifier::reject_recursive_types(T)]
pub struct ExSender<T>(async_channel::Sender<T>);

#[verifier::external_type_specification]
#[verifier::external_body]
#[verifier::reject_recursive_types(T)]
pub struct ExReceiver<T>(async_channel::Receiver<T>);

/// Relies on async_channel::bounded: a fresh channel with room for `cap`
/// messages; the function panics when `cap` is zero.
pub assume_specification<T>[ async_channel::bounded::<T> ](cap: usize) -> (r: (
    async_channel::Sender<T>,
    async_channel::Receiver<T>,
))
    requires
        cap > 0,
;

/// Relies on async_channel::Sender::clone: the clone sends into the same
/// channel, of which nothing is modelled here.
pub assume_specification<T>[ <async_channel::Sender<T> as Clone>::clone ](
    sender: &async_channel::Sender<T>,
) -> (r: async_channel::Sender<T>);

/// Relies on async_channel::Sender::try_send: the message is queued unless
/// the channel is closed (every receiver gone) or out of room; on failure the
/// error gives the message back, returned here unchanged.
#[verifier::external_body]
pub(crate) fn try_send<T>(sender: &async_channel::Sender<T>, message: T) -> (r: Result<(), T>)
    ensures
        r matches Err(m) ==> m == message,
{
    match sender.try_send(message) {
        Ok(()) => Ok(()),
        Err(rejected) => Err(rejected.into_inner()),
    }
}

} // verus!
