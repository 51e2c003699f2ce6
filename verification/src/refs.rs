//! What messages and references to actors can tell of themselves.
use crate::error::TellError;
use crate::time::Duration;
use vstd::prelude::*;

verus! {

/// A message that knows its kind.
pub trait MessageKind {
    fn kind(&self) -> &'static str;
}

/// What can be read from a reference to an actor, and how to stop the actor
/// through it. Other threads change what is read, so nothing is promised of
/// it.
pub trait RefMetrics {
    fn mailbox_len(&self) -> usize;

    fn inflight_count(&self) -> usize;

    fn idle_for(&self) -> Duration;

    fn silence_for(&self) -> Duration;

    fn incarnation(&self) -> u64;

    fn is_closed(&self) -> bool;

    fn is_terminated(&self) -> bool;

    fn stop(&self) -> Result<(), TellError>;
}

/// What was read from a reference at some time.
#[derive(Debug, Clone, Copy, PartialEq, Eq, Structural)]
pub struct RefState {
    pub mailbox_len: usize,
    pub inflight_count: usize,
    pub idle_for: Duration,
}

impl RefState {
    /// The actor has nothing to do, and has had nothing for `idle_timeout`.
    pub open spec fn is_idle(self, idle_timeout: Duration) -> bool {
        self.mailbox_len == 0 && self.inflight_count == 0 && self.idle_for@ >= idle_timeout@
    }

    /// It was read from the reference: each number is what the reference gave
    /// for it.
    pub open spec fn is_of<R: RefMetrics>(self, r: R) -> bool {
        &&& call_ensures(R::mailbox_len, (&r,), self.mailbox_len)
        &&& call_ensures(R::inflight_count, (&r,), self.inflight_count)
        &&& call_ensures(R::idle_for, (&r,), self.idle_for)
    }

    /// Reads the reference.
    pub fn read<R: RefMetrics>(r: &R) -> (state: RefState)
        ensures
            state.is_of(*r),
            call_ensures(R::mailbox_len, (r,), state.mailbox_len),
            call_ensures(R::inflight_count, (r,), state.inflight_count),
            call_ensures(R::idle_for, (r,), state.idle_for),
    {
        RefState {
            mailbox_len: r.mailbox_len(),
            inflight_count: r.inflight_count(),
            idle_for: r.idle_for(),
        }
    }

    /// Whether the actor is to be stopped for having nothing to do.
    pub fn is_reapable(&self, idle_timeout: Duration) -> (idle: bool)
        ensures
            idle == self.is_idle(idle_timeout),
            idle ==> self.mailbox_len == 0,
            idle ==> self.inflight_count == 0,
            idle ==> self.idle_for@ >= idle_timeout@,
            self.mailbox_len == 0 && self.inflight_count == 0 && self.idle_for@ >= idle_timeout@
                ==> idle,
    {
        self.mailbox_len == 0 && self.inflight_count == 0 && self.idle_for.at_least(&idle_timeout)
    }
}

/// Which of the actors that were read are to be stopped, in order.
pub open spec fn idle_indices(states: Seq<RefState>, idle_timeout: Duration) -> Seq<int>
    decreases states.len(),
{
    if states.len() == 0 {
        Seq::empty()
    } else {
        let earlier = idle_indices(states.drop_last(), idle_timeout);
        if states.last().is_idle(idle_timeout) {
            earlier.push(states.len() - 1)
        } else {
            earlier
        }
    }
}

/// Picks the actors that are to be stopped for having nothing to do.
pub fn pick_idle(states: &Vec<RefState>, idle_timeout: Duration) -> (picked: Vec<usize>)
    ensures
        picked@.map_values(|i: usize| i as int) == idle_indices(states@, idle_timeout),
        forall|k: int|
            0 <= k < picked@.len() ==> {
                &&& (#[trigger] picked@[k]) < states@.len()
                &&& states@[picked@[k] as int].mailbox_len == 0
                &&& states@[picked@[k] as int].inflight_count == 0
                &&& states@[picked@[k] as int].idle_for@ >= idle_timeout@
            },
        forall|i: int|
            0 <= i < states@.len() && (#[trigger] states@[i]).mailbox_len == 0
                && states@[i].inflight_count == 0 && states@[i].idle_for@ >= idle_timeout@
                ==> picked@.contains(i as usize),
        forall|j: int, k: int| 0 <= j < k < picked@.len() ==> picked@[j] < picked@[k],
{
    let mut picked: Vec<usize> = Vec::new();
    let mut i: usize = 0;
    assert(picked@.map_values(|i: usize| i as int) =~= Seq::<int>::empty());
    assert(states@.take(0) =~= Seq::<RefState>::empty());
    while i < states.len()
        invariant
            0 <= i <= states@.len(),
            picked@.map_values(|i: usize| i as int) == idle_indices(
                states@.take(i as int),
                idle_timeout,
            ),
            forall|k: int|
                0 <= k < picked@.len() ==> {
                    &&& (#[trigger] picked@[k]) < i
                    &&& states@[picked@[k] as int].mailbox_len == 0
                    &&& states@[picked@[k] as int].inflight_count == 0
                    &&& states@[picked@[k] as int].idle_for@ >= idle_timeout@
                },
            forall|j: int|
                0 <= j < i && (#[trigger] states@[j]).mailbox_len == 0 && states@[j].inflight_count
                    == 0 && states@[j].idle_for@ >= idle_timeout@ ==> picked@.contains(j as usize),
            forall|j: int, k: int| 0 <= j < k < picked@.len() ==> picked@[j] < picked@[k],
        decreases states@.len() - i,
    {
        assert(states@.take(i + 1).drop_last() =~= states@.take(i as int));
        let ghost before = picked@;
        if states[i].is_reapable(idle_timeout) {
            picked.push(i);
            assert(picked@.map_values(|i: usize| i as int) =~= before.map_values(
                |i: usize| i as int,
            ).push(i as int));
            assert(picked@[before.len() as int] == i);
            assert forall|j: int|
                0 <= j <= i && (#[trigger] states@[j]).mailbox_len == 0 && states@[j].inflight_count
                    == 0 && states@[j].idle_for@ >= idle_timeout@ implies picked@.contains(
                j as usize,
            ) by {
                if j < i {
                    let k = choose|k: int| 0 <= k < before.len() && before[k] == j as usize;
                    assert(picked@[k] == j as usize);
                }
            }
        }
        i = i + 1;
    }
    assert(states@.take(i as int) =~= states@);
    picked
}

/// The actors that are picked are just those that have nothing to do and have
/// had nothing for long enough, each once: one that is busy, or has messages
/// waiting, is never picked.
pub proof fn law_just_the_idle_are_picked(states: Seq<RefState>, idle_timeout: Duration, i: int)
    ensures
        idle_indices(states, idle_timeout).contains(i) <==> 0 <= i < states.len()
            && states[i].is_idle(idle_timeout),
        idle_indices(states, idle_timeout).no_duplicates(),
    decreases states.len(),
{
    if states.len() > 0 {
        law_just_the_idle_are_picked(states.drop_last(), idle_timeout, i);
        let earlier = idle_indices(states.drop_last(), idle_timeout);
        let n = states.len() - 1;
        if states.last().is_idle(idle_timeout) {
            let all = earlier.push(n);
            assert(all[earlier.len() as int] == n);
            law_just_the_idle_are_picked(states.drop_last(), idle_timeout, n);
            assert forall|j: int| 0 <= j < earlier.len() implies #[trigger] earlier[j] != n by {
                assert(earlier.contains(earlier[j]));
            }
            if earlier.contains(i) {
                let j = choose|j: int| 0 <= j < earlier.len() && earlier[j] == i;
                assert(all[j] == i);
            }
            if all.contains(i) && i != n {
                let j = choose|j: int| 0 <= j < all.len() && all[j] == i;
                assert(earlier[j] == i);
            }
        }
    }
}

/// An actor that is picked has nothing waiting and nothing in hand, and has had
/// nothing for the time; and every such actor is picked.
pub proof fn law_no_busy_actor_is_picked(states: Seq<RefState>, idle_timeout: Duration, i: int)
    requires
        0 <= i < states.len(),
    ensures
        idle_indices(states, idle_timeout).contains(i) ==> states[i].mailbox_len == 0,
        idle_indices(states, idle_timeout).contains(i) ==> states[i].inflight_count == 0,
        idle_indices(states, idle_timeout).contains(i) ==> states[i].idle_for@ >= idle_timeout@,
        states[i].mailbox_len == 0 && states[i].inflight_count == 0 && states[i].idle_for@
            >= idle_timeout@ ==> idle_indices(states, idle_timeout).contains(i),
{
    law_just_the_idle_are_picked(states, idle_timeout, i);
}

/// A longer time to wait never picks an actor that a shorter one spares.
pub proof fn law_patience_spares(states: Seq<RefState>, short: Duration, long: Duration, i: int)
    requires
        short@ <= long@,
        idle_indices(states, long).contains(i),
    ensures
        idle_indices(states, short).contains(i),
{
    law_just_the_idle_are_picked(states, short, i);
    law_just_the_idle_are_picked(states, long, i);
}

} // verus!
