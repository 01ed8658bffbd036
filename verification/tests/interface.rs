//! Tests of the producer-side interface: callers, summoners, return types.

use deferred::{Caller, ReturnType, Summoner};

#[test]
fn call_later_enqueues_the_record() {
    let (tx, rx) = async_channel::unbounded::<(u64, u32)>();
    let caller = Caller::attached(tx);
    assert_eq!(caller.call_later(500, 7), Ok(()));
    assert_eq!(rx.try_recv(), Ok((500, 7)));
}

#[test]
fn call_uses_the_present_time() {
    let (tx, rx) = async_channel::unbounded::<(u64, u32)>();
    let caller = Caller::attached(tx);
    let before = deferred::clock::now_millis();
    assert_eq!(caller.call(3), Ok(()));
    let after = deferred::clock::now_millis();
    let (due, args) = rx.try_recv().expect("the record was enqueued");
    assert_eq!(args, 3);
    assert!(before <= due && due <= after);
}

#[test]
fn clones_feed_the_same_channel() {
    let (tx, rx) = async_channel::unbounded::<(u64, u32)>();
    let caller = Caller::attached(tx);
    let clone = caller.clone();
    assert_eq!(caller.call_later(1, 10), Ok(()));
    assert_eq!(clone.call_later(2, 20), Ok(()));
    assert_eq!(rx.try_recv(), Ok((1, 10)));
    assert_eq!(rx.try_recv(), Ok((2, 20)));
}

#[test]
fn send_after_engine_terminated_returns_the_record() {
    let (tx, rx) = async_channel::unbounded::<(u64, u32)>();
    let caller = Caller::attached(tx);
    drop(rx);
    assert_eq!(caller.call_later(500, 7), Err((500, 7)));
    assert_eq!(caller.call(9), Err(9));
}

#[test]
fn default_caller_is_detached() {
    let caller: Caller<u32> = Default::default();
    assert!(caller.inner.is_none());
}

#[test]
fn unit_outcome_is_success() {
    let diag = ().log();
    assert_eq!(diag, None);
}

#[test]
fn empty_option_outcomes_are_success() {
    assert_eq!(Some(()).log(), None);
    assert_eq!(None::<()>.log(), None);
}

#[test]
fn failure_outcome_carries_its_message() {
    let ok: Result<(), String> = Ok(());
    assert_eq!(ok.log(), None);
    let failed: Result<(), String> = Err(String::from("bad day"));
    assert_eq!(failed.log(), Some(String::from("bad day")));
}

#[test]
fn summoner_appends_its_reply_sender() {
    let (tx, rx) = async_channel::unbounded::<(u64, (u32, async_channel::Sender<u64>))>();
    let caller = Caller::attached(tx);
    let summoner: Summoner<u32, u64> = caller.summoner();
    assert_eq!(summoner.dispatch(21), Ok(()));
    let (_due, (args, reply)) = rx.try_recv().expect("the call was scheduled");
    assert_eq!(args, 21);
    reply.try_send(u64::from(args) * 2).expect("one reply slot is free");
    assert_eq!(summoner.reply_rx.try_recv(), Ok(42));
}

#[test]
fn summoners_sharing_one_engine_do_not_cross_talk() {
    let (tx, rx) = async_channel::unbounded::<(u64, (u32, async_channel::Sender<u64>))>();
    let caller = Caller::attached(tx);
    let first = Summoner::new(caller.clone());
    let second = Summoner::new(caller);
    assert_eq!(first.dispatch(1), Ok(()));
    assert_eq!(second.dispatch(2), Ok(()));
    while let Ok((_due, (args, reply))) = rx.try_recv() {
        reply.try_send(u64::from(args) * 10).unwrap();
    }
    assert_eq!(first.reply_rx.try_recv(), Ok(10));
    assert_eq!(second.reply_rx.try_recv(), Ok(20));
}

#[test]
fn dispatch_after_engine_terminated_returns_the_arguments() {
    let (tx, rx) = async_channel::unbounded::<(u64, (u32, async_channel::Sender<u64>))>();
    let caller = Caller::attached(tx);
    let summoner: Summoner<u32, u64> = Summoner::new(caller);
    drop(rx);
    assert_eq!(summoner.dispatch(5), Err(5));
}

#[test]
fn dispatcher_hands_out_the_same_lock() {
    let lock = std::sync::Arc::new(async_lock::RwLock::new(0u32));
    let dispatcher = deferred::Dispatcher::new(lock.clone());
    let handle = dispatcher.get_lock();
    assert!(std::sync::Arc::ptr_eq(&lock, &handle));
}
