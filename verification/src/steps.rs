//! What each event does to an actor, to the last field, and what its outcome
//! does not depend on.
use crate::config::{RestartPolicy, ShutdownMode};
use crate::life::{Happening, World};
use crate::meter::MeterState;
use crate::task::{Action, ActorTask, Event, Input, Phase};
use crate::time::{backoff_nanos, law_of_nanos};
use vstd::prelude::*;

verus! {

/// Which events can happen in which phase; and of those all are taken, but for
/// a panic that can no longer be counted.
pub proof fn law_which_events_fit(t: ActorTask, event: Event)
    ensures
        t.fits(event) <==> match t.phase {
            Phase::Building => event is Built,
            Phase::Starting => event is HookDone,
            Phase::Running => event is ShutdownSignal || event is Received || event is MailboxEnded,
            Phase::Draining => event is DeadlineReached || event is Received
                || event is MailboxEnded,
            Phase::Handling { draining } => event is Handled || (draining
                && event is DeadlineReached),
            Phase::Stopping => event is StopHookDone,
            Phase::BackingOff => event is BackoffElapsed,
            Phase::Done => false,
        },
        t.restarts < usize::MAX ==> t.accepts(event) == t.fits(event),
        t.accepts(event) ==> t.fits(event),
        event != (Event::Built { panicked: true }) && event != (Event::HookDone { panicked: true })
            && !(event matches Event::Handled { panicked: true, .. }) ==> t.accepts(event)
            == t.fits(event),
{
}

/// No event changes the settings of an actor.
pub proof fn law_settings_are_kept(t: ActorTask, m: MeterState, input: Input)
    ensures
        t.next(m, input).restart_policy == t.restart_policy,
        t.next(m, input).shutdown_mode == t.shutdown_mode,
        t.meter_next(m, input).base == m.base,
        t.meter_next(m, input).terminated == m.terminated,
{
}

/// Every instance that is built runs a hook before it takes a message, whatever
/// waits in the mailbox: the first one where nothing has panicked yet, and the
/// one for a restart otherwise, which also counts as one more instance.
pub proof fn law_new_instance_runs_its_hook(t: ActorTask, m: MeterState, input: Input)
    requires
        t.phase is Building,
        input.event == (Event::Built { panicked: false }),
    ensures
        t.restarts == 0 ==> t.action(m, input) is RunOnStart,
        t.restarts > 0 ==> t.action(m, input) is RunOnRestart,
        t.next(m, input).phase is Starting,
        t.next(m, input).restarts == t.restarts,
        ({
            let q = t.meter_next(m, input);
            &&& t.restarts == 0 ==> q.incarnation == m.incarnation
            &&& t.restarts > 0 && m.incarnation < u64::MAX ==> q.incarnation == m.incarnation + 1
            &&& t.restarts > 0 && m.incarnation == u64::MAX ==> q.incarnation == 0
            &&& q.last_seen_ms == input.now_ms
            &&& q.last_done_ms == input.now_ms
            &&& q.len == m.len
            &&& q.inflight == m.inflight
            &&& q.closed == m.closed
        }),
{
}

/// The meter shows the same as before.
spec fn is_untouched(m: MeterState, q: MeterState) -> bool {
    &&& q.len == m.len
    &&& q.inflight == m.inflight
    &&& q.base == m.base
    &&& q.last_seen_ms == m.last_seen_ms
    &&& q.last_done_ms == m.last_done_ms
    &&& q.incarnation == m.incarnation
    &&& q.closed == m.closed
    &&& q.terminated == m.terminated
}

/// After its hook an instance waits for messages.
pub proof fn law_started_actor_waits(t: ActorTask, m: MeterState, input: Input)
    requires
        t.phase is Starting,
        input.event == (Event::HookDone { panicked: false }),
    ensures
        t.action(m, input) is AwaitMessage,
        t.next(m, input).phase is Running,
        t.next(m, input).restarts == t.restarts,
        t.meter_next(m, input) == m,
{
    assert(is_untouched(m, t.meter_next(m, input)));
}

/// The signal of a shutdown closes the mailbox. An actor with a deadline that
/// has anything waiting or in hand begins to drain then, with that deadline, and
/// every other one stops.
pub proof fn law_shutdown_closes_and_drains(t: ActorTask, m: MeterState, input: Input)
    requires
        t.phase is Running,
        input.event is ShutdownSignal,
    ensures
        t.shutdown_mode matches ShutdownMode::Graceful { deadline } ==> (m.len > 0 || m.inflight
            > 0) ==> {
            &&& t.action(m, input) == (Action::BeginDrain { deadline })
            &&& t.next(m, input).phase is Draining
        },
        t.shutdown_mode is Immediate || (m.len == 0 && m.inflight == 0) ==> {
            &&& t.action(m, input) == (Action::RunOnStop { close_mailbox: true })
            &&& t.next(m, input).phase is Stopping
        },
        t.next(m, input).restarts == t.restarts,
        t.meter_next(m, input) == (MeterState { closed: true, ..m }),
{
}

/// The deadline of a drain ends it, whatever is left. A message that is being
/// handled is broken off: it is no longer in hand.
pub proof fn law_deadline_breaks_off(t: ActorTask, m: MeterState, input: Input)
    requires
        t.phase is Draining || t.phase is Handling,
        input.event is DeadlineReached,
    ensures
        t.action(m, input) == (Action::RunOnStop { close_mailbox: false }),
        t.next(m, input).phase is Stopping,
        t.next(m, input).restarts == t.restarts,
        t.phase is Draining ==> t.meter_next(m, input) == m,
        ({
            let q = t.meter_next(m, input);
            &&& t.phase is Handling && m.inflight > 0 ==> q.inflight == m.inflight - 1
            &&& t.phase is Handling ==> q.last_done_ms == input.now_ms
            &&& q.last_seen_ms == m.last_seen_ms
            &&& q.len == m.len
            &&& q.closed == m.closed
            &&& q.incarnation == m.incarnation
        }),
{
}

/// A message that is received is handed to the actor at once, in a drain as
/// well: it no longer waits, and is in hand.
pub proof fn law_received_message_is_handled(t: ActorTask, m: MeterState, input: Input)
    requires
        t.phase is Running || t.phase is Draining,
        input.event is Received,
    ensures
        t.action(m, input) is Handle,
        t.phase is Running ==> t.next(m, input).phase == (Phase::Handling { draining: false }),
        t.phase is Draining ==> t.next(m, input).phase == (Phase::Handling { draining: true }),
        t.next(m, input).restarts == t.restarts,
        ({
            let q = t.meter_next(m, input);
            &&& m.len > 0 ==> q.len == m.len - 1
            &&& m.len == 0 ==> q.len == usize::MAX
            &&& m.inflight < usize::MAX ==> q.inflight == m.inflight + 1
            &&& q.last_seen_ms == input.now_ms
            &&& q.last_done_ms == m.last_done_ms
            &&& q.closed == m.closed
            &&& q.incarnation == m.incarnation
        }),
{
}

/// The end of the mailbox makes the actor stop, with the mailbox closed.
pub proof fn law_mailbox_end_stops(t: ActorTask, m: MeterState, input: Input)
    requires
        t.phase is Running || t.phase is Draining,
        input.event is MailboxEnded,
    ensures
        t.action(m, input) == (Action::RunOnStop { close_mailbox: false }),
        t.next(m, input).phase is Stopping,
        t.next(m, input).restarts == t.restarts,
        t.meter_next(m, input) == (MeterState { closed: true, ..m }),
{
}

/// After a message that was handled without a panic an actor goes on as it was:
/// it waits for the next message, or goes on with its drain, whether or not the
/// system is shutting down. It stops only where that was asked for, which closes
/// the mailbox, or where a drain has nothing left, not even in hand.
pub proof fn law_handled_message_goes_on(
    t: ActorTask,
    m: MeterState,
    input: Input,
    draining: bool,
    stop_requested: bool,
)
    requires
        t.phase == (Phase::Handling { draining }),
        input.event == (Event::Handled { panicked: false, stop_requested }),
    ensures
        !stop_requested && !draining ==> {
            &&& t.action(m, input) is AwaitMessage
            &&& t.next(m, input).phase is Running
        },
        !stop_requested && draining && (m.len > 0 || m.inflight > 0) ==> {
            &&& t.action(m, input) is AwaitDrain
            &&& t.next(m, input).phase is Draining
        },
        !stop_requested && draining && m.len == 0 && m.inflight == 0 ==> {
            &&& t.action(m, input) == (Action::RunOnStop { close_mailbox: false })
            &&& t.next(m, input).phase is Stopping
        },
        stop_requested ==> {
            &&& t.action(m, input) == (Action::RunOnStop { close_mailbox: true })
            &&& t.next(m, input).phase is Stopping
            &&& t.meter_next(m, input).closed
        },
        !stop_requested ==> t.meter_next(m, input).closed == m.closed,
        t.next(m, input).restarts == t.restarts,
        ({
            let q = t.meter_next(m, input);
            &&& m.inflight > 0 ==> q.inflight == m.inflight - 1
            &&& q.last_done_ms == input.now_ms
            &&& q.last_seen_ms == m.last_seen_ms
            &&& q.len == m.len
            &&& q.incarnation == m.incarnation
        }),
{
}

/// After the last hook the task ends, and after the wait for a restart the
/// factory is called; the meter shows nothing of either.
pub proof fn law_stop_ends_and_backoff_rebuilds(t: ActorTask, m: MeterState, input: Input)
    ensures
        t.phase is Stopping && input.event is StopHookDone ==> {
            &&& t.action(m, input) is Exit
            &&& t.next(m, input).phase is Done
            &&& t.next(m, input).restarts == t.restarts
            &&& t.meter_next(m, input) == m
        },
        t.phase is BackingOff && input.event is BackoffElapsed ==> {
            &&& t.action(m, input) is Build
            &&& t.next(m, input).phase is Building
            &&& t.next(m, input).restarts == t.restarts
            &&& t.meter_next(m, input) == m
        },
{
}

/// A panic of the factory, of a hook or of a message. While the system runs it
/// is counted, and followed by the wait for the next instance as long as the
/// policy allows for one more; otherwise it ends the task. Nothing that waits is
/// touched, and the mailbox is not closed.
pub proof fn law_panic_is_counted(t: ActorTask, m: MeterState, input: Input)
    requires
        ({
            ||| input.event == (Event::Built { panicked: true })
            ||| input.event == (Event::HookDone { panicked: true })
            ||| input.event matches Event::Handled { panicked: true, .. }
        }),
        t.restarts < usize::MAX,
    ensures
        t.restart_policy matches RestartPolicy::OnPanic { max_restarts, min_backoff, max_backoff }
            ==> !input.cancelled && t.restarts < max_restarts ==> {
            &&& t.action(m, input) matches Action::Sleep { backoff }
            &&& backoff@ == backoff_nanos((t.restarts + 1) as nat, min_backoff@, max_backoff@)
            &&& t.next(m, input).phase is BackingOff
        },
        input.cancelled || t.restart_policy is Never || (t.restart_policy matches
            RestartPolicy::OnPanic { max_restarts, .. } && t.restarts >= max_restarts) ==> {
            &&& t.action(m, input) is Exit
            &&& t.next(m, input).phase is Done
        },
        !input.cancelled ==> t.next(m, input).restarts == t.restarts + 1,
        input.cancelled ==> t.next(m, input).restarts == t.restarts,
        input.event !is Handled ==> t.meter_next(m, input) == m,
        ({
            let q = t.meter_next(m, input);
            &&& input.event is Handled && m.inflight > 0 ==> q.inflight == m.inflight - 1
            &&& input.event is Handled ==> q.last_done_ms == input.now_ms
            &&& q.last_seen_ms == m.last_seen_ms
            &&& q.len == m.len
            &&& q.closed == m.closed
            &&& q.incarnation == m.incarnation
        }),
{
    if let RestartPolicy::OnPanic { min_backoff, max_backoff, .. } = t.restart_policy {
        law_of_nanos(backoff_nanos((t.restarts + 1) as nat, min_backoff@, max_backoff@));
    }
    assert(input.event !is Handled ==> is_untouched(m, t.meter_next(m, input)));
}

/// Only a panic is met otherwise when the system is shutting down: of every
/// other event the outcome is the same. And when it happens shows on the meter
/// alone.
pub proof fn law_shutdown_matters_to_panics_alone(
    t: ActorTask,
    m: MeterState,
    event: Event,
    now1: u64,
    now2: u64,
    cancelled1: bool,
    cancelled2: bool,
)
    requires
        ({
            ||| cancelled1 == cancelled2
            ||| event !is Built && event !is HookDone && event !is Handled
            ||| event == (Event::Built { panicked: false })
            ||| event == (Event::HookDone { panicked: false })
            ||| event matches Event::Handled { panicked: false, .. }
        }),
    ensures
        ({
            let one = Input { event, now_ms: now1, cancelled: cancelled1 };
            let two = Input { event, now_ms: now2, cancelled: cancelled2 };
            &&& t.next(m, one) == t.next(m, two)
            &&& t.action(m, one) == t.action(m, two)
            &&& now1 == now2 ==> t.meter_next(m, one) == t.meter_next(m, two)
        }),
{
}

/// What the meter shows matters only to an actor that a shutdown finds at work:
/// to the signal itself, and to a message that is handled in a drain.
pub proof fn law_meter_matters_to_drains_alone(
    t: ActorTask,
    m1: MeterState,
    m2: MeterState,
    input: Input,
)
    requires
        input.event !is ShutdownSignal,
        input.event is Handled ==> t.phase == (Phase::Handling { draining: false }),
    ensures
        t.next(m1, input) == t.next(m2, input),
        t.action(m1, input) == t.action(m2, input),
{
}

/// A drain loses nothing: an actor with a deadline stops only where nothing
/// waits any more or the mailbox has ended, unless it is the deadline that ends
/// the drain, or the actor that has asked to be stopped.
pub proof fn law_drain_loses_nothing(w: World, history: Seq<Happening>, input: Input)
    requires
        w.task.shutdown_mode is Graceful,
        w.can_all(history),
        w.after_all(history).can(Happening::Step(input)),
        w.after_all(history).task.action(w.after_all(history).meter, input) is RunOnStop,
    ensures
        ({
            ||| input.event is MailboxEnded
            ||| w.after_all(history).meter.len == 0
            ||| input.event is DeadlineReached
            ||| input.event matches Event::Handled { stop_requested: true, .. }
        }),
{
    lemma_mode_is_kept(w, history);
}

proof fn lemma_mode_is_kept(w: World, history: Seq<Happening>)
    ensures
        w.after_all(history).task.shutdown_mode == w.task.shutdown_mode,
    decreases history.len(),
{
    if history.len() > 0 {
        lemma_mode_is_kept(w, history.drop_last());
    }
}

/// From the building of an instance to its first message there is always a
/// hook: no message is handed to an instance whose hook has not been done.
pub proof fn law_hook_comes_before_messages(w: World, built: Input, next: Input)
    requires
        w.can(Happening::Step(built)),
        built.event == (Event::Built { panicked: false }),
        w.after(Happening::Step(built)).can(Happening::Step(next)),
    ensures
        next.event is HookDone,
        next.event == (Event::HookDone { panicked: false }) ==> w.after(
            Happening::Step(built),
        ).after(Happening::Step(next)).task.phase is Running,
{
}

} // verus!
