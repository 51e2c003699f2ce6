//! The life of one actor, as a machine: what happened goes in, what is to be
//! done next comes out.
use crate::config::{RestartPolicy, ShutdownMode};
use crate::meter::{MailboxMeter, MeterState};
use crate::time::{backoff, backoff_nanos, Duration};
use vstd::prelude::*;

verus! {

/// Where an actor is in its life.
#[derive(Debug, Clone, Copy, PartialEq, Eq, Structural)]
pub enum Phase {
    /// An instance is being built.
    Building,
    /// The hook of a new instance runs.
    Starting,
    /// The actor waits for a message.
    Running,
    /// The system is shutting down: the actor handles what is left in its
    /// mailbox.
    Draining,
    /// A message is being handled.
    Handling { draining: bool },
    /// The last hook of the instance runs.
    Stopping,
    /// The instance has panicked, and the next one is not yet due.
    BackingOff,
    /// The task is over.
    Done,
}

/// What can happen to an actor.
#[derive(Debug, Clone, Copy, PartialEq, Eq, Structural)]
pub enum Event {
    /// The factory has returned an instance, or has panicked.
    Built { panicked: bool },
    /// The hook of a new instance is over.
    HookDone { panicked: bool },
    /// The system has begun to shut down.
    ShutdownSignal,
    /// The time that a shutdown leaves for draining is over. A message that is
    /// being handled then is broken off.
    DeadlineReached,
    /// A message was taken out of the mailbox.
    Received,
    /// The mailbox is empty and will stay so.
    MailboxEnded,
    /// The handling of a message is over.
    Handled { panicked: bool, stop_requested: bool },
    /// The last hook of the instance is over.
    StopHookDone,
    /// The wait before a restart is over.
    BackoffElapsed,
}

/// What the runtime does next for an actor.
#[derive(Debug, Clone, Copy, PartialEq, Eq, Structural)]
pub enum Action {
    /// Call the factory.
    Build,
    /// Run the hook of the first instance.
    RunOnStart,
    /// Run the hook of an instance that takes over from another.
    RunOnRestart,
    /// Wait for a message, for the end of the mailbox, or for the shutdown.
    AwaitMessage,
    /// Close the mailbox. Then wait for what is left in it, for its end, or
    /// for `deadline` to pass.
    BeginDrain { deadline: Duration },
    /// Wait for what is left in the mailbox, for its end, or for the deadline
    /// to pass.
    AwaitDrain,
    /// Hand the message to the actor. In a drain, break its handling off when
    /// the deadline passes.
    Handle,
    /// Close the mailbox if that is asked for, and run the last hook.
    RunOnStop { close_mailbox: bool },
    /// Wait before the next instance is built.
    Sleep { backoff: Duration },
    /// End the task.
    Exit,
}

impl Event {
    /// The actor, its factory or its hook has panicked.
    pub open spec fn is_crash(self) -> bool {
        match self {
            Event::Built { panicked } => panicked,
            Event::HookDone { panicked } => panicked,
            Event::Handled { panicked, .. } => panicked,
            _ => false,
        }
    }
}

/// The task that runs one actor.
#[derive(Debug, Clone, Copy, PartialEq, Eq, Structural)]
pub struct ActorTask {
    pub restart_policy: RestartPolicy,
    pub shutdown_mode: ShutdownMode,
    /// How many instances have panicked.
    pub restarts: usize,
    pub phase: Phase,
}

/// An event, with what the task can see of the world at that time.
#[derive(Debug, Clone, Copy, PartialEq, Eq, Structural)]
pub struct Input {
    pub event: Event,
    /// The time, in milliseconds of the meter.
    pub now_ms: u64,
    /// The system is shutting down.
    pub cancelled: bool,
}

impl ActorTask {
    /// The event can happen in the phase that the task is in.
    pub open spec fn fits(self, event: Event) -> bool {
        match event {
            Event::Built { .. } => self.phase is Building,
            Event::HookDone { .. } => self.phase is Starting,
            Event::ShutdownSignal => self.phase is Running,
            Event::DeadlineReached => self.is_draining(),
            Event::Received => self.phase is Running || self.phase is Draining,
            Event::MailboxEnded => self.phase is Running || self.phase is Draining,
            Event::Handled { .. } => self.phase is Handling,
            Event::StopHookDone => self.phase is Stopping,
            Event::BackoffElapsed => self.phase is BackingOff,
        }
    }

    /// The task can take the event: it fits, and a panic can still be counted.
    pub open spec fn accepts(self, event: Event) -> bool {
        &&& self.fits(event)
        &&& event.is_crash() ==> self.restarts < usize::MAX
    }

    /// The task after a panic.
    pub open spec fn after_crash(self, cancelled: bool) -> ActorTask {
        if cancelled {
            ActorTask { phase: Phase::Done, ..self }
        } else {
            let restarts = (self.restarts + 1) as usize;
            match self.restart_policy {
                RestartPolicy::OnPanic { max_restarts, .. } if restarts <= max_restarts =>
                    ActorTask { restarts, phase: Phase::BackingOff, ..self },
                _ => ActorTask { restarts, phase: Phase::Done, ..self },
            }
        }
    }

    /// What follows a panic: a wait while restarts are left, or else the end.
    pub open spec fn crash_action(self, cancelled: bool) -> Action {
        match self.restart_policy {
            RestartPolicy::OnPanic { max_restarts, min_backoff, max_backoff } if !cancelled
                && self.restarts < max_restarts => Action::Sleep {
                backoff: Duration::of_nanos(
                    backoff_nanos((self.restarts + 1) as nat, min_backoff@, max_backoff@),
                ),
            },
            _ => Action::Exit,
        }
    }

    /// The task is draining its mailbox.
    pub open spec fn is_draining(self) -> bool {
        self.phase is Draining || self.phase == (Phase::Handling { draining: true })
    }

    /// The task after an event.
    pub open spec fn next(self, meter: MeterState, input: Input) -> ActorTask {
        if input.event.is_crash() {
            self.after_crash(input.cancelled)
        } else {
            let phase = match input.event {
                Event::Built { .. } => Phase::Starting,
                Event::HookDone { .. } => Phase::Running,
                Event::ShutdownSignal => match self.shutdown_mode {
                    ShutdownMode::Graceful { .. } if !meter.is_quiet() => Phase::Draining,
                    _ => Phase::Stopping,
                },
                Event::DeadlineReached => Phase::Stopping,
                Event::Received => Phase::Handling { draining: self.is_draining() },
                Event::MailboxEnded => Phase::Stopping,
                Event::Handled { stop_requested, .. } => if stop_requested || (self.is_draining()
                    && meter.is_quiet()) {
                    Phase::Stopping
                } else if self.is_draining() {
                    Phase::Draining
                } else {
                    Phase::Running
                },
                Event::StopHookDone => Phase::Done,
                Event::BackoffElapsed => Phase::Building,
            };
            ActorTask { phase, ..self }
        }
    }

    /// What is to be done after an event.
    pub open spec fn action(self, meter: MeterState, input: Input) -> Action {
        if input.event.is_crash() {
            self.crash_action(input.cancelled)
        } else {
            match self.next(meter, input).phase {
                Phase::Building => Action::Build,
                Phase::Starting => if self.restarts == 0 {
                    Action::RunOnStart
                } else {
                    Action::RunOnRestart
                },
                Phase::Running => Action::AwaitMessage,
                Phase::Draining => match (input.event, self.shutdown_mode) {
                    (Event::ShutdownSignal, ShutdownMode::Graceful { deadline }) =>
                        Action::BeginDrain { deadline },
                    _ => Action::AwaitDrain,
                },
                Phase::Handling { .. } => Action::Handle,
                Phase::Stopping => Action::RunOnStop {
                    close_mailbox: match input.event {
                        Event::ShutdownSignal => true,
                        Event::Handled { stop_requested, .. } => stop_requested,
                        _ => false,
                    },
                },
                _ => Action::Exit,
            }
        }
    }

    /// The meter after an event.
    pub open spec fn meter_next(self, meter: MeterState, input: Input) -> MeterState {
        let now_ms = input.now_ms;
        match input.event {
            Event::Built { panicked: true } => meter,
            Event::Built { .. } => if self.restarts == 0 {
                meter.started(now_ms)
            } else {
                meter.started(now_ms).reborn()
            },
            Event::ShutdownSignal | Event::MailboxEnded => MeterState { closed: true, ..meter },
            Event::Received => meter.received(now_ms).process_started(),
            Event::DeadlineReached => if self.phase is Handling {
                meter.process_ended(now_ms)
            } else {
                meter
            },
            Event::Handled { panicked, stop_requested } => MeterState {
                closed: meter.closed || (stop_requested && !panicked),
                ..meter.process_ended(now_ms)
            },
            _ => meter,
        }
    }

    /// The task of an actor that is yet to be built.
    pub fn new(restart_policy: RestartPolicy, shutdown_mode: ShutdownMode) -> (task: ActorTask)
        ensures
            task == (ActorTask { restart_policy, shutdown_mode, restarts: 0, phase: Phase::Building }),
    {
        ActorTask { restart_policy, shutdown_mode, restarts: 0, phase: Phase::Building }
    }

    /// Whether the task can take the event.
    pub fn can_accept(&self, event: Event) -> (b: bool)
        ensures
            b == self.accepts(event),
    {
        match (event, self.phase) {
            (Event::Built { panicked }, Phase::Building) => !panicked || self.restarts < usize::MAX,
            (Event::HookDone { panicked }, Phase::Starting) => !panicked || self.restarts
                < usize::MAX,
            (Event::Handled { panicked, .. }, Phase::Handling { .. }) => !panicked || self.restarts
                < usize::MAX,
            (Event::ShutdownSignal, Phase::Running) => true,
            (Event::DeadlineReached, Phase::Draining) => true,
            (Event::DeadlineReached, Phase::Handling { draining }) => draining,
            (Event::Received, Phase::Running) => true,
            (Event::Received, Phase::Draining) => true,
            (Event::MailboxEnded, Phase::Running) => true,
            (Event::MailboxEnded, Phase::Draining) => true,
            (Event::StopHookDone, Phase::Stopping) => true,
            (Event::BackoffElapsed, Phase::BackingOff) => true,
            _ => false,
        }
    }

    /// Counts a panic, and decides whether there is to be another instance.
    fn crash(&mut self, cancelled: bool) -> (action: Action)
        requires
            old(self).restarts < usize::MAX,
        ensures
            *final(self) == old(self).after_crash(cancelled),
            action == old(self).crash_action(cancelled),
    {
        if cancelled {
            self.phase = Phase::Done;
            return Action::Exit;
        }
        self.restarts = self.restarts + 1;
        if let RestartPolicy::OnPanic { max_restarts, min_backoff, max_backoff } =
            self.restart_policy {
            if self.restarts > max_restarts {
                self.phase = Phase::Done;
                Action::Exit
            } else {
                self.phase = Phase::BackingOff;
                Action::Sleep { backoff: backoff(self.restarts, min_backoff, max_backoff) }
            }
        } else {
            self.phase = Phase::Done;
            Action::Exit
        }
    }

    /// Takes the task through one event, and the meter with it.
    pub fn step(&mut self, meter: &mut MailboxMeter, input: Input) -> (action: Action)
        requires
            old(self).accepts(input.event),
        ensures
            *final(self) == old(self).next(old(meter)@, input),
            final(meter)@ == old(self).meter_next(old(meter)@, input),
            action == old(self).action(old(meter)@, input),
    {
        match input.event {
            Event::Built { panicked } => {
                if panicked {
                    return self.crash(input.cancelled);
                }
                meter.on_startup_at(input.now_ms);
                self.phase = Phase::Starting;
                if self.restarts == 0 {
                    Action::RunOnStart
                } else {
                    meter.inc_incarnation();
                    Action::RunOnRestart
                }
            },
            Event::HookDone { panicked } => {
                if panicked {
                    return self.crash(input.cancelled);
                }
                self.phase = Phase::Running;
                Action::AwaitMessage
            },
            Event::ShutdownSignal => {
                meter.set_closed(true);
                match self.shutdown_mode {
                    ShutdownMode::Immediate => {
                        self.phase = Phase::Stopping;
                        Action::RunOnStop { close_mailbox: true }
                    },
                    ShutdownMode::Graceful { deadline } => {
                        if meter.is_quiet() {
                            self.phase = Phase::Stopping;
                            Action::RunOnStop { close_mailbox: true }
                        } else {
                            self.phase = Phase::Draining;
                            Action::BeginDrain { deadline }
                        }
                    },
                }
            },
            Event::DeadlineReached => {
                if matches!(self.phase, Phase::Handling { .. }) {
                    meter.on_process_end_at(input.now_ms);
                }
                self.phase = Phase::Stopping;
                Action::RunOnStop { close_mailbox: false }
            },
            Event::Received => {
                meter.on_recv_at(input.now_ms);
                meter.on_process_start();
                let draining = matches!(self.phase, Phase::Draining);
                self.phase = Phase::Handling { draining };
                Action::Handle
            },
            Event::MailboxEnded => {
                meter.set_closed(true);
                self.phase = Phase::Stopping;
                Action::RunOnStop { close_mailbox: false }
            },
            Event::Handled { panicked, stop_requested } => {
                // The message that was just handled is still counted here, so a
                // drain goes on after it: it ends with the mailbox itself,
                // and misses nothing that was sent but not yet counted.
                let quiet = meter.is_quiet();
                meter.on_process_end_at(input.now_ms);
                if panicked {
                    return self.crash(input.cancelled);
                }
                if stop_requested {
                    meter.set_closed(true);
                    self.phase = Phase::Stopping;
                    return Action::RunOnStop { close_mailbox: true };
                }
                let draining = matches!(self.phase, Phase::Handling { draining: true });
                if draining && quiet {
                    self.phase = Phase::Stopping;
                    Action::RunOnStop { close_mailbox: false }
                } else if draining {
                    self.phase = Phase::Draining;
                    Action::AwaitDrain
                } else {
                    self.phase = Phase::Running;
                    Action::AwaitMessage
                }
            },
            Event::StopHookDone => {
                self.phase = Phase::Done;
                Action::Exit
            },
            Event::BackoffElapsed => {
                self.phase = Phase::Building;
                Action::Build
            },
        }
    }
}

} // verus!
