//! What holds over the whole life of an actor, whatever happens to it.
use crate::config::RestartPolicy;
use crate::meter::{after_traffic, law_ended_for_good, MeterState, Traffic};
use crate::rt::SystemState;
use crate::task::{Action, ActorTask, Event, Input, Phase};
use crate::time::{backoff_nanos, law_of_nanos};
use vstd::prelude::*;

verus! {

/// A task and the meter that it shares with the senders.
pub struct World {
    pub task: ActorTask,
    pub meter: MeterState,
}

/// One thing that happens to an actor.
pub enum Happening {
    /// The task takes an event.
    Step(Input),
    /// A sender counts a message.
    Sent(u64),
}

impl World {
    /// An actor that is yet to be built, with the meter of a new mailbox.
    pub open spec fn is_new(self) -> bool {
        &&& self.task.phase is Building
        &&& self.task.restarts == 0
        &&& self.meter.len == 0
        &&& self.meter.inflight == 0
        &&& self.meter.incarnation == 1
        &&& !self.meter.closed
        &&& !self.meter.terminated
    }

    /// It can happen now. A shutdown that the task knows of is never taken
    /// back.
    pub open spec fn can(self, h: Happening) -> bool {
        match h {
            Happening::Step(input) => {
                &&& self.task.accepts(input.event)
                &&& input.event is ShutdownSignal || self.task.is_draining() ==> input.cancelled
            },
            Happening::Sent(_) => true,
        }
    }

    pub open spec fn after(self, h: Happening) -> World {
        match h {
            Happening::Step(input) => World {
                task: self.task.next(self.meter, input),
                meter: self.task.meter_next(self.meter, input),
            },
            Happening::Sent(now_ms) => World { meter: self.meter.sent(now_ms), ..self },
        }
    }

    /// All of `history` can happen, one thing after the other.
    pub open spec fn can_all(self, history: Seq<Happening>) -> bool
        decreases history.len(),
    {
        history.len() > 0 ==> {
            &&& self.can_all(history.drop_last())
            &&& self.after_all(history.drop_last()).can(history.last())
        }
    }

    /// The world after all of `history`.
    pub open spec fn after_all(self, history: Seq<Happening>) -> World
        decreases history.len(),
    {
        if history.len() == 0 {
            self
        } else {
            self.after_all(history.drop_last()).after(history.last())
        }
    }

    /// What the runtime was told to do in the course of `history`, in order.
    pub open spec fn actions(self, history: Seq<Happening>) -> Seq<Action>
        decreases history.len(),
    {
        if history.len() == 0 {
            Seq::empty()
        } else {
            let before = self.after_all(history.drop_last());
            match history.last() {
                Happening::Step(input) => self.actions(history.drop_last()).push(
                    before.task.action(before.meter, input),
                ),
                Happening::Sent(_) => self.actions(history.drop_last()),
            }
        }
    }
}

/// How many of `actions` meet `wanted`.
pub open spec fn count(actions: Seq<Action>, wanted: spec_fn(Action) -> bool) -> nat
    decreases actions.len(),
{
    if actions.len() == 0 {
        0
    } else {
        count(actions.drop_last(), wanted) + (if wanted(actions.last()) {
            1nat
        } else {
            0
        })
    }
}

/// How often the hook of a first instance was run.
pub open spec fn starts(actions: Seq<Action>) -> nat {
    count(actions, |a: Action| a is RunOnStart)
}

/// How often the hook of a later instance was run.
pub open spec fn rebirths(actions: Seq<Action>) -> nat {
    count(actions, |a: Action| a is RunOnRestart)
}

/// How often the last hook of an instance was run.
pub open spec fn stops(actions: Seq<Action>) -> nat {
    count(actions, |a: Action| a is RunOnStop)
}

/// How often there was a wait for another instance.
pub open spec fn waits(actions: Seq<Action>) -> nat {
    count(actions, |a: Action| a is Sleep)
}

/// How often the factory was called again.
pub open spec fn rebuilds(actions: Seq<Action>) -> nat {
    count(actions, |a: Action| a is Build)
}

/// How often a message was handed to the actor.
pub open spec fn handles(actions: Seq<Action>) -> nat {
    count(actions, |a: Action| a is Handle)
}

/// How many messages were sent in the course of `history`.
pub open spec fn sends(history: Seq<Happening>) -> nat
    decreases history.len(),
{
    if history.len() == 0 {
        0
    } else {
        sends(history.drop_last()) + (if history.last() is Sent {
            1nat
        } else {
            0
        })
    }
}

/// How often the task was ended.
pub open spec fn exits(actions: Seq<Action>) -> nat {
    count(actions, |a: Action| a is Exit)
}

/// What is true of an actor at every point of its life.
spec fn holds(w: World, actions: Seq<Action>) -> bool {
    let phase = w.task.phase;
    // One message at a time.
    &&& w.meter.inflight == (if phase is Handling {
        1int
    } else {
        0
    })
    // The mailbox is closed from the moment on which the actor is to stop.
    &&& w.task.is_draining() || phase is Stopping ==> w.meter.closed
    &&& w.meter.closed ==> w.task.is_draining() || phase is Stopping || phase is Done
    &&& !w.meter.terminated
    // Restarts are counted and bounded.
    &&& match w.task.restart_policy {
        RestartPolicy::Never => phase !is Done ==> w.task.restarts == 0,
        RestartPolicy::OnPanic { max_restarts, .. } => {
            &&& w.task.restarts <= max_restarts + 1
            &&& phase !is Done ==> w.task.restarts <= max_restarts
        },
    }
    &&& waits(actions) <= w.task.restarts
    &&& match w.task.restart_policy {
        RestartPolicy::Never => waits(actions) == 0,
        RestartPolicy::OnPanic { max_restarts, .. } => waits(actions) <= max_restarts,
    }
    &&& phase !is Done ==> waits(actions) == w.task.restarts
    // Hooks.
    &&& starts(actions) <= 1
    &&& w.task.restarts == 0 && phase is Building ==> starts(actions) == 0
    &&& rebirths(actions) <= waits(actions)
    &&& phase is BackingOff ==> w.task.restarts > 0
    &&& phase is BackingOff || (phase is Building && w.task.restarts > 0) ==> rebirths(actions)
        < waits(actions)
    &&& w.task.restarts == 0 ==> rebirths(actions) == 0
    &&& rebirths(actions) < u64::MAX ==> w.meter.incarnation == 1 + rebirths(actions)
    &&& stops(actions) <= 1
    &&& stops(actions) == 1 ==> phase is Stopping || phase is Done
    &&& phase is Stopping ==> stops(actions) == 1
    &&& exits(actions) == (if phase is Done {
        1nat
    } else {
        0
    })
}

proof fn lemma_holds(w: World, history: Seq<Happening>)
    requires
        w.is_new(),
        w.can_all(history),
    ensures
        holds(w.after_all(history), w.actions(history)),
        w.after_all(history).task.restart_policy == w.task.restart_policy,
        w.after_all(history).task.shutdown_mode == w.task.shutdown_mode,
    decreases history.len(),
{
    if history.len() > 0 {
        lemma_holds(w, history.drop_last());
        let before = w.after_all(history.drop_last());
        let done = w.actions(history.drop_last());
        if let Happening::Step(input) = history.last() {
            let action = before.task.action(before.meter, input);
            assert(done.push(action).drop_last() =~= done);
        }
    }
}

/// An actor handles one message at a time: at most one is in flight, and one
/// is just while it is being handled.
pub proof fn law_one_message_at_a_time(w: World, history: Seq<Happening>)
    requires
        w.is_new(),
        w.can_all(history),
    ensures
        w.after_all(history).meter.inflight == (if w.after_all(history).task.phase is Handling {
            1int
        } else {
            0
        }),
{
    lemma_holds(w, history);
}

/// The mailbox is open while the actor is built, starts, runs or waits for a
/// restart, and closed as soon as the actor drains it or stops.
pub proof fn law_closed_from_drain_to_end(w: World, history: Seq<Happening>)
    requires
        w.is_new(),
        w.can_all(history),
        w.after_all(history).task.phase !is Done,
    ensures
        w.after_all(history).meter.closed <==> {
            ||| w.after_all(history).task.is_draining()
            ||| w.after_all(history).task.phase is Stopping
        },
{
    lemma_holds(w, history);
}

/// A mailbox that was closed stays closed.
pub proof fn law_closed_for_good(w: World, h: Happening)
    requires
        w.can(h),
        w.meter.closed,
    ensures
        w.after(h).meter.closed,
{
}

/// An actor counts as ended when its task has ended and not before, and then
/// its mailbox is closed.
pub proof fn law_terminated_implies_closed(w: World, history: Seq<Happening>)
    requires
        w.is_new(),
        w.can_all(history),
    ensures
        !w.after_all(history).meter.terminated,
        w.after_all(history).meter.ended().terminated,
        w.after_all(history).meter.ended().closed,
{
    lemma_holds(w, history);
}

/// The first instance is number 1, and each instance that takes over from
/// another counts one more.
pub proof fn law_incarnation_counts_rebirths(w: World, history: Seq<Happening>)
    requires
        w.is_new(),
        w.can_all(history),
        rebirths(w.actions(history)) < u64::MAX,
    ensures
        w.after_all(history).meter.incarnation == 1 + rebirths(w.actions(history)),
{
    lemma_holds(w, history);
}

/// There are no more restarts than the policy allows, and none where it
/// allows none.
pub proof fn law_restarts_are_bounded(w: World, history: Seq<Happening>)
    requires
        w.is_new(),
        w.can_all(history),
    ensures
        match w.task.restart_policy {
            RestartPolicy::Never => waits(w.actions(history)) == 0,
            RestartPolicy::OnPanic { max_restarts, .. } => waits(w.actions(history))
                <= max_restarts,
        },
        rebirths(w.actions(history)) <= waits(w.actions(history)),
{
    lemma_holds(w, history);
}

/// The factory is called once at first, and once more after each wait that is
/// over: no more often than the policy allows.
pub proof fn law_factory_is_called_for_each_instance(w: World, history: Seq<Happening>)
    requires
        w.is_new(),
        w.can_all(history),
    ensures
        waits(w.actions(history)) == rebuilds(w.actions(history)) + (if w.after_all(
            history,
        ).task.phase is BackingOff {
            1nat
        } else {
            0
        }),
        rebuilds(w.actions(history)) <= (match w.task.restart_policy {
            RestartPolicy::Never => 0,
            RestartPolicy::OnPanic { max_restarts, .. } => max_restarts as int,
        }),
    decreases history.len(),
{
    lemma_holds(w, history);
    if history.len() > 0 {
        law_factory_is_called_for_each_instance(w, history.drop_last());
        let before = w.after_all(history.drop_last());
        let done = w.actions(history.drop_last());
        if let Happening::Step(input) = history.last() {
            let action = before.task.action(before.meter, input);
            assert(done.push(action).drop_last() =~= done);
        }
    }
}

/// An actor that is never to be restarted ends with its first panic.
pub proof fn law_panic_ends_without_policy(w: World, input: Input)
    requires
        w.can(Happening::Step(input)),
        input.event.is_crash(),
        w.task.restart_policy is Never,
    ensures
        w.task.action(w.meter, input) is Exit,
        w.task.next(w.meter, input).phase is Done,
{
}

/// While the policy has restarts left and the system is not shutting down, a
/// panic is followed by a wait, whose length grows with the number of waits
/// before it.
pub proof fn law_panic_waits_and_restarts(w: World, history: Seq<Happening>, input: Input)
    requires
        w.is_new(),
        w.can_all(history),
        w.after_all(history).can(Happening::Step(input)),
        input.event.is_crash(),
        !input.cancelled,
        w.task.restart_policy matches RestartPolicy::OnPanic { max_restarts, .. }
            && waits(w.actions(history)) < max_restarts,
    ensures
        ({
            let now = w.after_all(history);
            &&& now.task.next(now.meter, input).phase is BackingOff
            &&& w.task.restart_policy matches RestartPolicy::OnPanic {
                min_backoff,
                max_backoff,
                ..
            } && now.task.action(now.meter, input) matches Action::Sleep { backoff } && backoff@
                == backoff_nanos(waits(w.actions(history)) + 1, min_backoff@, max_backoff@)
        }),
{
    lemma_holds(w, history);
    if let RestartPolicy::OnPanic { min_backoff, max_backoff, .. } = w.task.restart_policy {
        law_of_nanos(backoff_nanos(waits(w.actions(history)) + 1, min_backoff@, max_backoff@));
    }
}

/// When the policy has no restarts left, a panic ends the actor.
pub proof fn law_last_panic_ends(w: World, history: Seq<Happening>, input: Input)
    requires
        w.is_new(),
        w.can_all(history),
        w.after_all(history).can(Happening::Step(input)),
        input.event.is_crash(),
        w.task.restart_policy matches RestartPolicy::OnPanic { max_restarts, .. }
            && waits(w.actions(history)) >= max_restarts,
    ensures
        ({
            let now = w.after_all(history);
            &&& now.task.next(now.meter, input).phase is Done
            &&& now.task.action(now.meter, input) is Exit
        }),
{
    lemma_holds(w, history);
}

/// An actor that panics while the system shuts down is not built again.
pub proof fn law_no_restart_while_shutting_down(w: World, input: Input)
    requires
        w.can(Happening::Step(input)),
        input.event.is_crash(),
        input.cancelled || w.task.is_draining(),
    ensures
        w.task.action(w.meter, input) is Exit,
        w.task.next(w.meter, input).phase is Done,
{
}

/// An instance that panics does not run its last hook.
pub proof fn law_panic_skips_on_stop(w: World, input: Input)
    requires
        w.can(Happening::Step(input)),
        input.event.is_crash(),
    ensures
        w.task.action(w.meter, input) is Sleep || w.task.action(w.meter, input) is Exit,
{
}

/// The hook of a first instance runs at most once, and only before any panic.
pub proof fn law_on_start_comes_first(w: World, history: Seq<Happening>, input: Input)
    requires
        w.is_new(),
        w.can_all(history),
        w.after_all(history).can(Happening::Step(input)),
        w.after_all(history).task.action(w.after_all(history).meter, input) is RunOnStart,
    ensures
        starts(w.actions(history)) == 0,
        rebirths(w.actions(history)) == 0,
        waits(w.actions(history)) == 0,
{
    lemma_holds(w, history);
}

/// The last hook runs at most once, and what follows it is the end.
pub proof fn law_on_stop_comes_last(w: World, history: Seq<Happening>)
    requires
        w.is_new(),
        w.can_all(history),
    ensures
        stops(w.actions(history)) <= 1,
        forall|input: Input|
            stops(w.actions(history)) == 1 && #[trigger] w.after_all(history).can(
                Happening::Step(input),
            ) ==> w.after_all(history).task.action(w.after_all(history).meter, input) is Exit,
{
    lemma_holds(w, history);
}

/// A task ends once, and nothing happens to it after that.
pub proof fn law_exit_is_final(w: World, history: Seq<Happening>)
    requires
        w.is_new(),
        w.can_all(history),
    ensures
        exits(w.actions(history)) <= 1,
        exits(w.actions(history)) == 1 <==> w.after_all(history).task.phase is Done,
        forall|input: Input|
            exits(w.actions(history)) == 1 ==> !#[trigger] w.after_all(history).can(
                Happening::Step(input),
            ),
{
    lemma_holds(w, history);
}

/// A task that is not done can always go on: some event fits, and none of
/// those that are no panic is ever refused.
pub proof fn law_never_stuck(w: World)
    requires
        w.task.phase !is Done,
    ensures
        exists|input: Input| w.can(Happening::Step(input)),
{
    let event = match w.task.phase {
        Phase::Building => Event::Built { panicked: false },
        Phase::Starting => Event::HookDone { panicked: false },
        Phase::Running => Event::Received,
        Phase::Draining => Event::Received,
        Phase::Handling { .. } => Event::Handled { panicked: false, stop_requested: false },
        Phase::Stopping => Event::StopHookDone,
        _ => Event::BackoffElapsed,
    };
    assert(w.can(Happening::Step(Input { event, now_ms: 0, cancelled: true })));
}

/// What waits in the mailbox when an instance panics waits for the next
/// instance: neither the panic, nor the wait, nor the restart touches it.
pub proof fn law_restart_keeps_the_mailbox(w: World, input: Input)
    requires
        w.can(Happening::Step(input)),
        input.event.is_crash() || input.event is BackoffElapsed || input.event is Built
            || input.event is HookDone,
    ensures
        w.after(Happening::Step(input)).meter.len == w.meter.len,
        w.after(Happening::Step(input)).meter.closed == w.meter.closed,
{
}

/// On shutdown an actor without a deadline closes its mailbox and stops,
/// whatever is left in the mailbox.
pub proof fn law_immediate_shutdown_stops(w: World, input: Input)
    requires
        w.can(Happening::Step(input)),
        input.event is ShutdownSignal,
        w.task.shutdown_mode is Immediate,
    ensures
        w.after(Happening::Step(input)).meter.closed,
        w.task.action(w.meter, input) == (Action::RunOnStop { close_mailbox: true }),
{
}

/// On shutdown an actor with a deadline closes its mailbox, and stops if the
/// mailbox is empty; or else it goes on, until the deadline at most.
pub proof fn law_graceful_shutdown_drains(w: World, input: Input)
    requires
        w.can(Happening::Step(input)),
        input.event is ShutdownSignal,
        w.task.shutdown_mode is Graceful,
    ensures
        w.after(Happening::Step(input)).meter.closed,
        w.task.action(w.meter, input) == (if w.meter.is_quiet() {
            Action::RunOnStop { close_mailbox: true }
        } else {
            Action::BeginDrain { deadline: w.task.shutdown_mode->deadline }
        }),
        !w.meter.is_quiet() ==> w.after(Happening::Step(input)).task.phase is Draining,
{
}

/// The deadline ends a drain by force, whatever is left in the mailbox: a
/// message that is being handled is broken off, and is no longer counted.
pub proof fn law_deadline_ends_the_drain(w: World, history: Seq<Happening>, now_ms: u64)
    requires
        w.is_new(),
        w.can_all(history),
        w.after_all(history).task.is_draining(),
    ensures
        ({
            let now = w.after_all(history);
            let input = Input { event: Event::DeadlineReached, now_ms, cancelled: true };
            let then = now.after(Happening::Step(input));
            &&& now.can(Happening::Step(input))
            &&& now.task.action(now.meter, input) == (Action::RunOnStop { close_mailbox: false })
            &&& then.task.phase is Stopping
            &&& then.meter.inflight == 0
            &&& then.meter.len == now.meter.len
            &&& then.meter.closed
        }),
{
    lemma_holds(w, history);
}

/// A wish to stop that a message brings about is granted at once: the mailbox
/// is closed, and the last hook runs.
pub proof fn law_stop_request_is_granted(w: World, input: Input)
    requires
        w.can(Happening::Step(input)),
        input.event == (Event::Handled { panicked: false, stop_requested: true }),
    ensures
        w.after(Happening::Step(input)).meter.closed,
        w.task.action(w.meter, input) == (Action::RunOnStop { close_mailbox: true }),
{
}

/// An actor that can get no more messages closes its mailbox and stops.
pub proof fn law_end_of_the_mailbox_stops(w: World, input: Input)
    requires
        w.can(Happening::Step(input)),
        input.event is MailboxEnded,
    ensures
        w.after(Happening::Step(input)).meter.closed,
        w.task.action(w.meter, input) == (Action::RunOnStop { close_mailbox: false }),
{
}

/// The length of the mailbox is the number of messages that were sent and not
/// yet handed to the actor, over all its instances.
pub proof fn law_mailbox_keeps_what_is_not_handled(w: World, history: Seq<Happening>)
    requires
        w.is_new(),
        w.can_all(history),
        0 <= sends(history) - handles(w.actions(history)) <= usize::MAX,
    ensures
        w.after_all(history).meter.len == sends(history) - handles(w.actions(history)),
{
    let wraps = lemma_len_modulo(w, history);
    let word = usize::MAX + 1;
    let len = w.after_all(history).meter.len as int;
    let expected = sends(history) - handles(w.actions(history));
    assert(wraps == 0) by (nonlinear_arith)
        requires
            len == expected + wraps * word,
            0 <= len < word,
            0 <= expected < word,
    ;
}

/// The length is right but for whole turns of the counter.
proof fn lemma_len_modulo(w: World, history: Seq<Happening>) -> (wraps: int)
    requires
        w.is_new(),
        w.can_all(history),
    ensures
        w.after_all(history).meter.len == sends(history) - handles(w.actions(history)) + wraps * (
        usize::MAX + 1),
    decreases history.len(),
{
    let word = usize::MAX + 1;
    if history.len() == 0 {
        0
    } else {
        let before = w.after_all(history.drop_last());
        let done = w.actions(history.drop_last());
        let wraps = lemma_len_modulo(w, history.drop_last());
        assert((wraps + 1) * word == wraps * word + word) by (nonlinear_arith);
        assert((wraps - 1) * word == wraps * word - word) by (nonlinear_arith);
        match history.last() {
            Happening::Step(input) => {
                let action = before.task.action(before.meter, input);
                assert(done.push(action).drop_last() =~= done);
                assert(action is Handle <==> input.event is Received);
                if input.event is Received && before.meter.len == 0 {
                    wraps + 1
                } else {
                    wraps
                }
            },
            Happening::Sent(_) => if before.meter.len == usize::MAX {
                wraps - 1
            } else {
                wraps
            },
        }
    }
}

/// Where the messages are that were sent. Each is known by its number: the
/// first is 0.
pub struct Post {
    /// Those that wait, in the order in which the mailbox gives them out.
    pub waiting: Seq<nat>,
    /// Those that were handed to the actor, in order.
    pub handed: Seq<nat>,
}

/// Where the messages are after `history`, with a mailbox that gives them out
/// in the order in which it took them.
pub open spec fn post(history: Seq<Happening>) -> Post
    decreases history.len(),
{
    if history.len() == 0 {
        Post { waiting: Seq::empty(), handed: Seq::empty() }
    } else {
        let before = post(history.drop_last());
        match history.last() {
            Happening::Sent(_) => Post {
                waiting: before.waiting.push(sends(history.drop_last())),
                ..before
            },
            Happening::Step(input) => if input.event is Received {
                Post {
                    waiting: before.waiting.drop_first(),
                    handed: before.handed.push(before.waiting.first()),
                }
            } else {
                before
            },
        }
    }
}

/// Each message that is received in the course of `history` was sent before.
pub open spec fn is_served(history: Seq<Happening>) -> bool
    decreases history.len(),
{
    history.len() > 0 ==> {
        &&& is_served(history.drop_last())
        &&& match history.last() {
            Happening::Step(input) => input.event is Received ==> post(
                history.drop_last(),
            ).waiting.len() > 0,
            Happening::Sent(_) => true,
        }
    }
}

/// Messages are handed to the actor in the order in which the mailbox took
/// them, each once, whatever panics meanwhile: one whose handling panicked does
/// not come again, and those behind it wait for the next instance.
pub proof fn law_messages_are_handled_in_order(w: World, history: Seq<Happening>)
    requires
        w.is_new(),
        w.can_all(history),
        is_served(history),
    ensures
        handles(w.actions(history)) <= sends(history),
        post(history).handed == Seq::new(handles(w.actions(history)), |i: int| i as nat),
        post(history).waiting == Seq::new(
            (sends(history) - handles(w.actions(history))) as nat,
            |i: int| (handles(w.actions(history)) + i) as nat,
        ),
    decreases history.len(),
{
    if history.len() > 0 {
        let earlier = history.drop_last();
        law_messages_are_handled_in_order(w, earlier);
        let before = w.after_all(earlier);
        let done = w.actions(earlier);
        if let Happening::Step(input) = history.last() {
            let action = before.task.action(before.meter, input);
            assert(done.push(action).drop_last() =~= done);
            assert(action is Handle <==> input.event is Received);
        }
    }
    assert(post(history).handed =~= Seq::new(handles(w.actions(history)), |i: int| i as nat));
    assert(post(history).waiting =~= Seq::new(
        (sends(history) - handles(w.actions(history))) as nat,
        |i: int| (handles(w.actions(history)) + i) as nat,
    ));
}

impl World {
    /// When an instance last started or was last done with a message.
    pub open spec fn last_work_ms(self, history: Seq<Happening>) -> u64
        decreases history.len(),
    {
        if history.len() == 0 {
            self.meter.last_done_ms
        } else {
            let before = self.after_all(history.drop_last());
            match history.last() {
                Happening::Step(input) if input.event == (Event::Built { panicked: false })
                    || input.event is Handled || (input.event is DeadlineReached
                    && before.task.phase is Handling) => input.now_ms,
                _ => self.last_work_ms(history.drop_last()),
            }
        }
    }

    /// When an instance last started, or a message was last sent or received.
    pub open spec fn last_traffic_ms(self, history: Seq<Happening>) -> u64
        decreases history.len(),
    {
        if history.len() == 0 {
            self.meter.last_seen_ms
        } else {
            match history.last() {
                Happening::Step(input) if input.event == (Event::Built { panicked: false })
                    || input.event is Received => input.now_ms,
                Happening::Sent(now_ms) => now_ms,
                _ => self.last_traffic_ms(history.drop_last()),
            }
        }
    }
}

/// An actor is idle since it last started or was last done with a message, and
/// silent since it last started or a message was last sent or received; nothing
/// else resets the two.
pub proof fn law_what_resets_idleness(w: World, history: Seq<Happening>)
    ensures
        w.after_all(history).meter.last_done_ms == w.last_work_ms(history),
        w.after_all(history).meter.last_seen_ms == w.last_traffic_ms(history),
    decreases history.len(),
{
    if history.len() > 0 {
        law_what_resets_idleness(w, history.drop_last());
    }
}

/// An actor does not count as ended while its task runs, over all its
/// instances. When the task has ended, in whatever way, it counts as ended and
/// its mailbox as closed, and so they stay whatever is still counted; and its
/// name can be taken again.
pub proof fn law_end_is_for_good<H>(
    w: World,
    history: Seq<Happening>,
    traffic: Seq<Traffic>,
    system: SystemState<H>,
    name: Seq<char>,
    handle: H,
)
    requires
        w.is_new(),
        w.can_all(history),
        system.admits(name),
    ensures
        !w.after_all(history).meter.terminated,
        ({
            let ended = after_traffic(w.after_all(history).meter.ended(), traffic);
            &&& ended.terminated
            &&& ended.closed
        }),
        !system.with(name, handle).admits(name),
        system.with(name, handle).without(name).admits(name),
{
    lemma_holds(w, history);
    law_ended_for_good(w.after_all(history).meter, traffic);
}

/// Nothing panics in the course of `history`.
pub open spec fn is_calm(history: Seq<Happening>) -> bool {
    forall|i: int|
        0 <= i < history.len() ==> match #[trigger] history[i] {
            Happening::Step(input) => !input.event.is_crash(),
            Happening::Sent(_) => true,
        }
}

/// An actor that never panics runs its first hook once and its last hook once,
/// and has but one instance.
pub proof fn law_calm_life(w: World, history: Seq<Happening>)
    requires
        w.is_new(),
        w.can_all(history),
        is_calm(history),
    ensures
        rebirths(w.actions(history)) == 0,
        w.after_all(history).meter.incarnation == 1,
        w.after_all(history).task.phase is Done ==> starts(w.actions(history)) == 1 && stops(
            w.actions(history),
        ) == 1,
{
    lemma_calm(w, history);
    lemma_holds(w, history);
}

proof fn lemma_calm(w: World, history: Seq<Happening>)
    requires
        w.is_new(),
        w.can_all(history),
        is_calm(history),
    ensures
        w.after_all(history).task.restarts == 0,
        starts(w.actions(history)) == (if w.after_all(history).task.phase is Building {
            0nat
        } else {
            1
        }),
        w.after_all(history).task.phase !is BackingOff,
        w.after_all(history).task.phase is Done ==> stops(w.actions(history)) == 1,
    decreases history.len(),
{
    if history.len() > 0 {
        let earlier = history.drop_last();
        assert forall|i: int| 0 <= i < earlier.len() implies match #[trigger] earlier[i] {
            Happening::Step(input) => !input.event.is_crash(),
            Happening::Sent(_) => true,
        } by {
            assert(earlier[i] == history[i]);
        }
        lemma_calm(w, earlier);
        lemma_holds(w, earlier);
        let before = w.after_all(earlier);
        let done = w.actions(earlier);
        assert(history.last() == history[history.len() - 1]);
        if let Happening::Step(input) = history.last() {
            let action = before.task.action(before.meter, input);
            assert(done.push(action).drop_last() =~= done);
        }
    }
}

/// `history` takes messages out of the mailbox and handles each to the end,
/// with neither a panic nor a wish to stop.
pub open spec fn is_steady(history: Seq<Happening>) -> bool {
    forall|i: int|
        0 <= i < history.len() ==> {
            &&& #[trigger] history[i] is Step
            &&& history[i]->Step_0.cancelled
            &&& history[i]->Step_0.event == (if i % 2 == 0 {
                Event::Received
            } else {
                Event::Handled { panicked: false, stop_requested: false }
            })
        }
}

/// A drain handles all that is in the mailbox: for as many messages as there
/// are, each can be taken out and handled, and the actor goes on with the
/// drain until the mailbox is empty. Then the end of the mailbox makes it
/// stop.
pub proof fn law_drain_handles_all_that_waits(w: World, history: Seq<Happening>, now_ms: u64)
    requires
        w.task.phase is Draining,
        w.meter.inflight == 0,
        is_steady(history),
        history.len() == 2 * w.meter.len,
    ensures
        w.can_all(history),
        w.after_all(history).task.phase is Draining,
        w.after_all(history).meter.len == 0,
        w.after_all(history).meter.inflight == 0,
        ({
            let end = w.after_all(history);
            let input = Input { event: Event::MailboxEnded, now_ms, cancelled: true };
            &&& end.can(Happening::Step(input))
            &&& end.task.action(end.meter, input) == (Action::RunOnStop { close_mailbox: false })
        }),
{
    lemma_steady_drain(w, history);
}

proof fn lemma_steady_drain(w: World, history: Seq<Happening>)
    requires
        w.task.phase is Draining,
        w.meter.inflight == 0,
        is_steady(history),
        history.len() % 2 == 0,
        history.len() <= 2 * w.meter.len,
    ensures
        w.can_all(history),
        w.after_all(history).task.phase is Draining,
        w.after_all(history).meter.len == w.meter.len - history.len() / 2,
        w.after_all(history).meter.inflight == 0,
    decreases history.len(),
{
    if history.len() > 0 {
        let once = history.drop_last();
        let earlier = once.drop_last();
        lemma_steady_drain(w, earlier);
        assert(once.last() == history[history.len() - 2]);
        assert(history.last() is Step && once.last() is Step);
        assert(w.after_all(once) == w.after_all(earlier).after(once.last()));
        assert(w.can_all(once));
    }
}

} // verus!
