//! The scheduling engine: the decision core of the deferred-call loop.
//!
//! An [`Engine`] owns the pending set of accepted, not-yet-executed calls.
//! Each iteration of the host's loop asks [`Engine::step`] what to do at the
//! current time: execute the entry that is due, or wait for a computed gap
//! (racing the timer against the arrival of new records). Arrivals and the
//! close of the inbound channel are fed back through [`Engine::handle_event`].
//! The loop terminates exactly when the channel reports that no more records
//! will ever arrive.

use vstd::prelude::*;

verus! {

/// One accepted deferred call: its due time (milliseconds on the host's
/// clock) and the arguments it was scheduled with.
pub struct PendingCall<A> {
    /// The earliest time at which the call may execute.
    pub due: u64,
    /// The arguments to hand to the operation.
    pub args: A,
}

/// What the host's loop must do next, as decided by [`Engine::step`].
pub enum Action<A> {
    /// A pending entry is due: acquire the lock, invoke the operation with
    /// these arguments, release the lock, then ask for the next step.
    Execute {
        /// The due time of the entry being executed.
        due: u64,
        /// The arguments of the entry being executed.
        args: A,
    },
    /// Nothing is due yet: race a timer against the inbound channel. With
    /// `gap == Some(d)` the earliest entry becomes due in `d` milliseconds;
    /// with `gap == None` the pending set is empty and only an arrival (or
    /// the close of the channel) can wake the loop.
    Wait {
        /// Milliseconds until the earliest pending entry is due, if any.
        gap: Option<u64>,
    },
}

/// What the wait of an [`Action::Wait`] ended with.
pub enum Event<A> {
    /// The channel delivered a newly scheduled call.
    Delivered {
        /// The due time of the delivered record.
        due: u64,
        /// The arguments of the delivered record.
        args: A,
    },
    /// The timer fired before anything arrived.
    TimerElapsed,
    /// Every sender handle is gone and the channel is drained: no record
    /// will ever arrive again.
    Closed,
}

/// The entry at index `i` is the one the engine selects from the pending set
/// `s`: its due time is minimal, and among entries tied for the minimum it is
/// the most recently inserted (the last one), never an earlier one.
pub open spec fn is_chosen<A>(s: Seq<PendingCall<A>>, i: int) -> bool {
    &&& 0 <= i < s.len()
    &&& forall|j: int| 0 <= j < s.len() ==> s[i].due <= #[trigger] s[j].due
    &&& forall|j: int| i < j < s.len() ==> s[i].due < #[trigger] s[j].due
}

/// The scheduling engine for one registered operation: the pending set of
/// accepted calls, viewed as the sequence of entries in insertion order.
pub struct Engine<A> {
    pending: Vec<PendingCall<A>>,
}

impl<A> View for Engine<A> {
    type V = Seq<PendingCall<A>>;

    closed spec fn view(&self) -> Seq<PendingCall<A>> {
        self.pending@
    }
}

impl<A> Engine<A> {
    /// A fresh engine with an empty pending set.
    pub fn new() -> (e: Engine<A>)
        ensures
            e@ == Seq::<PendingCall<A>>::empty(),
    {
        Engine { pending: Vec::new() }
    }

    /// How many accepted calls are still awaiting execution.
    pub fn pending_count(&self) -> (n: usize)
        ensures
            n == self@.len(),
    {
        self.pending.len()
    }

    /// The index of the entry the engine will select, if the pending set is
    /// not empty: minimal due time, ties resolved to the last-inserted entry.
    fn find_chosen(&self) -> (r: Option<usize>)
        ensures
            match r {
                Some(i) => is_chosen(self@, i as int),
                None => self@.len() == 0,
            },
    {
        if self.pending.len() == 0 {
            return None;
        }
        let mut best: usize = 0;
        let mut k: usize = 1;
        while k < self.pending.len()
            invariant
                0 <= best < k <= self.pending@.len(),
                forall|j: int| 0 <= j < k ==> self.pending@[best as int].due
                    <= #[trigger] self.pending@[j].due,
                forall|j: int| best < j < k ==> self.pending@[best as int].due
                    < #[trigger] self.pending@[j].due,
            decreases self.pending@.len() - k,
        {
            if self.pending[k].due <= self.pending[best].due {
                best = k;
            }
            k = k + 1;
        }
        Some(best)
    }

    /// Decide what to do at time `now`.
    ///
    /// With an empty pending set the engine waits with no bound. Otherwise it
    /// selects the entry `is_chosen` describes: if that entry is due
    /// (`due <= now`) it is removed and handed back for execution; if not,
    /// the engine waits for the gap until it becomes due. Entries are removed
    /// only by being handed back, so each accepted call is executed at most
    /// once, and overdue entries are drained one per step without waiting.
    pub fn step(&mut self, now: u64) -> (a: Action<A>)
        ensures
            old(self)@.len() == 0 ==> a == (Action::<A>::Wait { gap: None }) && final(self)@
                == old(self)@,
            old(self)@.len() > 0 ==> exists|i: int|
                #[trigger] is_chosen(old(self)@, i) && if old(self)@[i].due <= now {
                    &&& a == (Action::Execute {
                        due: old(self)@[i].due,
                        args: old(self)@[i].args,
                    })
                    &&& final(self)@ == old(self)@.remove(i)
                } else {
                    &&& a matches Action::Wait { gap: Some(g) } && g == old(self)@[i].due - now
                    &&& final(self)@ == old(self)@
                },
    {
        match self.find_chosen() {
            None => Action::Wait { gap: None },
            Some(i) => {
                let due = self.pending[i].due;
                if due <= now {
                    let entry = self.pending.remove(i);
                    Action::Execute { due: entry.due, args: entry.args }
                } else {
                    Action::Wait { gap: Some(due - now) }
                }
            },
        }
    }

    /// Feed back what ended the wait. A delivered record is appended to the
    /// pending set; an elapsed timer changes nothing (the next `step` will
    /// find the entry that has become due); the close of the channel changes
    /// nothing either but tells the loop to terminate. The result says
    /// whether the loop goes on: it is `false` exactly for [`Event::Closed`],
    /// so an operation's failure outcome can never stop the loop, and
    /// whatever is still pending at the close is discarded unexecuted.
    pub fn handle_event(&mut self, event: Event<A>) -> (proceed: bool)
        ensures
            proceed == !(event is Closed),
            event matches Event::Delivered { due, args } ==> final(self)@ == old(self)@.push(
                PendingCall { due, args },
            ),
            !(event is Delivered) ==> final(self)@ == old(self)@,
    {
        match event {
            Event::Delivered { due, args } => {
                self.pending.push(PendingCall { due, args });
                true
            },
            Event::TimerElapsed => true,
            Event::Closed => false,
        }
    }
}

/// Law: the tie-break is deterministic — the pending set has at most one
/// entry that `is_chosen` describes, so the engine's selection is a function
/// of the pending set alone.
pub proof fn lemma_chosen_unique<A>(s: Seq<PendingCall<A>>, i: int, j: int)
    requires
        is_chosen(s, i),
        is_chosen(s, j),
    ensures
        i == j,
{
    if i < j {
        assert(s[i].due < s[j].due);
        assert(s[j].due <= s[i].due);
    } else if j < i {
        assert(s[j].due < s[i].due);
        assert(s[i].due <= s[j].due);
    }
}

/// A non-empty pending set always has a selected entry: the last one among
/// those with the minimal due time.
pub proof fn lemma_chosen_exists<A>(s: Seq<PendingCall<A>>)
    requires
        s.len() > 0,
    ensures
        exists|i: int| #[trigger] is_chosen(s, i),
    decreases s.len(),
{
    if s.len() == 1 {
        assert(is_chosen(s, 0));
    } else {
        let s0 = s.drop_last();
        assert(forall|j: int| 0 <= j < s0.len() ==> #[trigger] s0[j] == s[j]);
        lemma_chosen_exists(s0);
        let i = choose|i: int| #[trigger] is_chosen(s0, i);
        let last = s.len() - 1;
        if s[last].due <= s0[i].due {
            assert forall|j: int| 0 <= j < s.len() implies s[last].due <= #[trigger] s[j].due by {
                if j < last {
                    assert(s0[j] == s[j]);
                    assert(s0[i].due <= s0[j].due);
                }
            };
            assert(is_chosen(s, last));
        } else {
            assert forall|j: int| 0 <= j < s.len() implies s[i].due <= #[trigger] s[j].due by {
                if j < last {
                    assert(s0[j] == s[j]);
                    assert(s0[i].due <= s0[j].due);
                }
            };
            assert forall|j: int| i < j < s.len() implies s[i].due < #[trigger] s[j].due by {
                if j < last {
                    assert(s0[j] == s[j]);
                    assert(s0[i].due < s0[j].due);
                }
            };
            assert(is_chosen(s, i));
        }
    }
}

/// Law: calls that are pending together execute in non-decreasing due-time
/// order. The entry the engine selects for execution has a due time no
/// greater than that of any entry left pending with it, so none of those can
/// reach execution before it.
pub proof fn lemma_no_overtaking<A>(s: Seq<PendingCall<A>>, i: int, j: int)
    requires
        is_chosen(s, i),
        0 <= j < s.len(),
    ensures
        s[i].due <= s[j].due,
{
}

/// The index the engine selects from the pending set `s`: by
/// [`lemma_chosen_unique`] there is at most one, so this names it.
pub open spec fn chosen_of<A>(s: Seq<PendingCall<A>>) -> int {
    choose|i: int| is_chosen(s, i)
}

/// The entries that repeated `step`s at time `now`, with no new arrivals,
/// hand back for execution, in execution order: while the selected entry is
/// due it is executed and removed, and the first not-yet-due selection (or
/// the empty set) ends the drain.
pub open spec fn drain_order<A>(s: Seq<PendingCall<A>>, now: u64) -> Seq<PendingCall<A>>
    decreases s.len(),
{
    if s.len() > 0 && is_chosen(s, chosen_of(s)) && s[chosen_of(s)].due <= now {
        seq![s[chosen_of(s)]] + drain_order(s.remove(chosen_of(s)), now)
    } else {
        Seq::empty()
    }
}

/// Law: draining a pending set at time `now` executes its entries in
/// non-decreasing due-time order; executes no entry before its due time; and
/// executes exactly the accepted entries that are due, each exactly as many
/// times as it stands in the set — no entry is lost, duplicated or invented.
pub proof fn lemma_drain_order_correct<A>(s: Seq<PendingCall<A>>, now: u64)
    ensures
        forall|k1: int, k2: int|
            0 <= k1 <= k2 < drain_order(s, now).len() ==> #[trigger] drain_order(s, now)[k1].due
                <= #[trigger] drain_order(s, now)[k2].due,
        forall|k: int|
            0 <= k < drain_order(s, now).len() ==> #[trigger] drain_order(s, now)[k].due <= now,
        forall|p: PendingCall<A>| #[trigger]
            drain_order(s, now).to_multiset().count(p) == if p.due <= now {
                s.to_multiset().count(p)
            } else {
                0
            },
    decreases s.len(),
{
    broadcast use vstd::seq_lib::group_to_multiset_ensures;
    broadcast use vstd::multiset::group_multiset_axioms;

    let d = drain_order(s, now);
    if s.len() > 0 && is_chosen(s, chosen_of(s)) && s[chosen_of(s)].due <= now {
        let i = chosen_of(s);
        let s2 = s.remove(i);
        let d2 = drain_order(s2, now);
        lemma_drain_order_correct(s2, now);
        vstd::seq_lib::lemma_multiset_commutative(seq![s[i]], d2);
        assert(seq![s[i]] == Seq::<PendingCall<A>>::empty().push(s[i]));
        assert forall|p: PendingCall<A>| #[trigger]
            d.to_multiset().count(p) == if p.due <= now {
                s.to_multiset().count(p)
            } else {
                0
            } by {
            assert(d.to_multiset().count(p) == seq![s[i]].to_multiset().count(p)
                + d2.to_multiset().count(p));
            assert(s2.to_multiset() == s.to_multiset().remove(s[i]));
        };
        assert forall|k: int| 0 <= k < d.len() implies #[trigger] d[k].due <= now by {
            if k > 0 {
                assert(d[k] == d2[k - 1]);
            }
        };
        assert forall|k1: int, k2: int|
            0 <= k1 <= k2 < d.len() implies #[trigger] d[k1].due <= #[trigger] d[k2].due by {
            if k1 == 0 && k2 > 0 {
                let p = d2[k2 - 1];
                assert(d[k2] == p);
                assert(d2.to_multiset().count(p) > 0) by {
                    assert(d2.contains(p));
                }
                assert(s2.to_multiset().count(p) > 0);
                assert(s2.contains(p));
                let j = choose|j: int| 0 <= j < s2.len() && s2[j] == p;
                if j < i {
                    assert(s2[j] == s[j]);
                } else {
                    assert(s2[j] == s[j + 1]);
                }
            } else if k1 > 0 {
                assert(d[k1] == d2[k1 - 1]);
                assert(d[k2] == d2[k2 - 1]);
            }
        };
    } else {
        if s.len() > 0 {
            lemma_chosen_exists(s);
            let c = chosen_of(s);
            assert(is_chosen(s, c));
            assert forall|p: PendingCall<A>| #[trigger]
                d.to_multiset().count(p) == if p.due <= now {
                    s.to_multiset().count(p)
                } else {
                    0
                } by {
                assert(d.to_multiset().count(p) == 0) by {
                    assert(!d.contains(p));
                }
                if p.due <= now && s.to_multiset().count(p) > 0 {
                    assert(s.contains(p));
                    let j = choose|j: int| 0 <= j < s.len() && s[j] == p;
                    assert(s[c].due <= s[j].due);
                }
            };
        } else {
            assert forall|p: PendingCall<A>| #[trigger] d.to_multiset().count(p) == 0 by {
                assert(!d.contains(p));
            };
            assert forall|p: PendingCall<A>| s.to_multiset().count(p) == 0 by {
                assert(!s.contains(p));
            };
        }
    }
}


/// Law: one `step` performs the head of the drain. When the selected entry
/// of `s` is due at `now`, the drain of `s` starts with exactly that entry,
/// and continues as the drain of the set `step` leaves behind — so repeated
/// `step`s without new arrivals realise `drain_order`, and with it the
/// non-decreasing execution order that [`lemma_drain_order_correct`] states.
pub proof fn lemma_step_drains_head<A>(s: Seq<PendingCall<A>>, i: int, now: u64)
    requires
        is_chosen(s, i),
        s[i].due <= now,
    ensures
        drain_order(s, now).len() > 0,
        drain_order(s, now)[0] == s[i],
        drain_order(s, now).skip(1) == drain_order(s.remove(i), now),
{
    let c = chosen_of(s);
    assert(is_chosen(s, c));
    lemma_chosen_unique(s, c, i);
    assert(drain_order(s, now) == seq![s[i]] + drain_order(s.remove(i), now));
    assert(drain_order(s, now).skip(1) =~= drain_order(s.remove(i), now));
}

} // verus!
