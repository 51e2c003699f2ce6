//! How an actor is to be spawned.
use crate::time::Duration;
use std::sync::Arc;
use vstd::prelude::*;

verus! {

/// Something that an actor's task keeps until it ends, and drops then.
pub trait SpawnGuard: Send + Sync + 'static {

}

impl<T: Send + Sync + 'static> SpawnGuard for T {

}

/// What the supervisor does when an actor panics.
#[derive(Debug, Clone, Copy, PartialEq, Eq, Structural)]
pub enum RestartPolicy {
    /// The actor ends.
    Never,
    /// The actor is built again, at most `max_restarts` times, after a wait
    /// that starts at `min_backoff` and doubles up to `max_backoff`.
    OnPanic { max_restarts: usize, min_backoff: Duration, max_backoff: Duration },
}

/// What an actor does when the system shuts down.
#[derive(Debug, Clone, Copy, PartialEq, Eq, Structural)]
pub enum ShutdownMode {
    /// The mailbox is closed and the actor stops.
    Immediate,
    /// The mailbox is closed, and what is in it is handled first, until
    /// `deadline` has passed.
    Graceful { deadline: Duration },
}

/// The settings of one actor.
#[derive(Clone)]
pub struct SpawnConfig {
    pub name: String,
    pub capacity: usize,
    pub restart_policy: RestartPolicy,
    pub shutdown_mode: ShutdownMode,
    pub extra_guards: Vec<Arc<dyn SpawnGuard>>,
}

impl SpawnConfig {
    /// An actor that is not restarted, and that stops at once on shutdown.
    pub fn new(name: &str, capacity: usize) -> (cfg: Self)
        ensures
            cfg.name@ == name@,
            cfg.capacity == capacity,
            cfg.restart_policy == RestartPolicy::Never,
            cfg.shutdown_mode == ShutdownMode::Immediate,
            cfg.extra_guards@ == Seq::<Arc<dyn SpawnGuard>>::empty(),
    {
        SpawnConfig {
            name: name.to_owned(),
            capacity,
            restart_policy: RestartPolicy::Never,
            shutdown_mode: ShutdownMode::Immediate,
            extra_guards: Vec::new(),
        }
    }

    pub fn push_guard(&mut self, guard: Arc<dyn SpawnGuard>)
        ensures
            final(self).extra_guards@.len() == old(self).extra_guards@.len() + 1,
            final(self).extra_guards@.drop_last() == old(self).extra_guards@,
            final(self).extra_guards@.last() == guard,
            final(self).name == old(self).name,
            final(self).capacity == old(self).capacity,
            final(self).restart_policy == old(self).restart_policy,
            final(self).shutdown_mode == old(self).shutdown_mode,
    {
        let mut added = Vec::new();
        added.push(guard);
        self.extra_guards.append(&mut added);
    }

    /// The same settings, with a restart on panic.
    pub fn restart_on_panic(
        self,
        max_restarts: usize,
        min_backoff: Duration,
        max_backoff: Duration,
    ) -> (cfg: Self)
        ensures
            cfg == (SpawnConfig {
                restart_policy: RestartPolicy::OnPanic { max_restarts, min_backoff, max_backoff },
                ..self
            }),
    {
        let mut cfg = self;
        cfg.restart_policy = RestartPolicy::OnPanic { max_restarts, min_backoff, max_backoff };
        cfg
    }

    /// The same settings, with a mailbox that is drained on shutdown.
    pub fn shutdown_graceful(self, deadline: Duration) -> (cfg: Self)
        ensures
            cfg == (SpawnConfig { shutdown_mode: ShutdownMode::Graceful { deadline }, ..self }),
    {
        let mut cfg = self;
        cfg.shutdown_mode = ShutdownMode::Graceful { deadline };
        cfg
    }
}

} // verus!
