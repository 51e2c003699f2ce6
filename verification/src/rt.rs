//! The actors of a system, by name.
use crate::config::{RestartPolicy, SpawnConfig};
use crate::error::SpawnError;
use crate::keys::{is_listing, lists, KeyMap};
use crate::meter::MailboxMeter;
use crate::task::{ActorTask, Phase};
use vstd::prelude::*;

verus! {

/// What a system holds: a handle for each actor that runs, and whether it is
/// shutting down.
pub struct SystemState<H> {
    pub actors: Map<Seq<char>, H>,
    pub shutting_down: bool,
}

/// A system of actors.
pub struct System<H> {
    actors: KeyMap<String, H>,
    shutting_down: bool,
}

impl<H> View for System<H> {
    type V = SystemState<H>;

    closed spec fn view(&self) -> SystemState<H> {
        SystemState { actors: self.actors@, shutting_down: self.shutting_down }
    }
}

impl<H> SystemState<H> {
    /// An actor of that name can be spawned now.
    pub open spec fn admits(self, name: Seq<char>) -> bool {
        !self.shutting_down && !self.actors.contains_key(name)
    }

    /// `error` is why an actor of that name cannot be spawned now.
    pub open spec fn refuses(self, name: Seq<char>, error: SpawnError) -> bool {
        if self.shutting_down {
            error is ShuttingDown
        } else {
            &&& self.actors.contains_key(name)
            &&& error matches SpawnError::NameTaken(taken)
            &&& taken@ == name
        }
    }

    pub open spec fn with(self, name: Seq<char>, handle: H) -> SystemState<H> {
        SystemState { actors: self.actors.insert(name, handle), ..self }
    }

    pub open spec fn without(self, name: Seq<char>) -> SystemState<H> {
        SystemState { actors: self.actors.remove(name), ..self }
    }

    pub open spec fn shut_down(self) -> SystemState<H> {
        SystemState { actors: Map::empty(), shutting_down: true }
    }
}

/// The task of an actor with these settings, before it is built.
pub open spec fn new_task(cfg: SpawnConfig) -> ActorTask {
    ActorTask {
        restart_policy: cfg.restart_policy,
        shutdown_mode: cfg.shutdown_mode,
        restarts: 0,
        phase: Phase::Building,
    }
}

impl<H> System<H> {
    pub closed spec fn wf(&self) -> bool {
        self.actors.wf()
    }

    pub fn new() -> (system: Self)
        ensures
            system.wf(),
            system@ == (SystemState::<H> { actors: Map::empty(), shutting_down: false }),
    {
        System { actors: KeyMap::new(), shutting_down: false }
    }

    pub fn is_shutting_down(&self) -> (b: bool)
        ensures
            b == self@.shutting_down,
    {
        self.shutting_down
    }

    /// Whether an actor of that name can be spawned now, or why not.
    pub fn check_name(&self, name: &String) -> (checked: Result<(), SpawnError>)
        requires
            self.wf(),
        ensures
            checked is Ok <==> self@.admits(name@),
            checked matches Err(error) ==> self@.refuses(name@, error),
    {
        if self.shutting_down {
            return Err(SpawnError::ShuttingDown);
        }
        if self.actors.contains_key(name) {
            return Err(SpawnError::NameTaken(name.clone()));
        }
        Ok(())
    }

    /// Spawns an actor that can be built anew: its name is taken from now on,
    /// and its task begins with the building of the first instance.
    pub fn spawn_with(&mut self, cfg: &SpawnConfig, handle: H) -> (spawned: Result<
        ActorTask,
        SpawnError,
    >)
        requires
            old(self).wf(),
        ensures
            final(self).wf(),
            spawned is Ok <==> old(self)@.admits(cfg.name@),
            match spawned {
                Ok(task) => {
                    &&& task == new_task(*cfg)
                    &&& final(self)@ == old(self)@.with(cfg.name@, handle)
                },
                Err(error) => {
                    &&& old(self)@.refuses(cfg.name@, error)
                    &&& final(self)@ == old(self)@
                },
            },
    {
        match self.check_name(&cfg.name) {
            Ok(()) => {
                self.actors.insert_new(cfg.name.clone(), handle);
                Ok(ActorTask::new(cfg.restart_policy, cfg.shutdown_mode))
            },
            Err(error) => Err(error),
        }
    }

    /// Spawns an actor of which there is but one instance: it cannot be
    /// restarted.
    pub fn spawn(&mut self, cfg: &SpawnConfig, handle: H) -> (spawned: Result<ActorTask, SpawnError>)
        requires
            old(self).wf(),
        ensures
            final(self).wf(),
            spawned is Ok <==> cfg.restart_policy is Never && old(self)@.admits(cfg.name@),
            match spawned {
                Ok(task) => {
                    &&& task == new_task(*cfg)
                    &&& final(self)@ == old(self)@.with(cfg.name@, handle)
                },
                Err(error) => {
                    &&& final(self)@ == old(self)@
                    &&& if cfg.restart_policy is Never {
                        old(self)@.refuses(cfg.name@, error)
                    } else {
                        error is NotRestartable
                    }
                },
            },
    {
        if let RestartPolicy::OnPanic { .. } = cfg.restart_policy {
            return Err(SpawnError::NotRestartable);
        }
        self.spawn_with(cfg, handle)
    }

    /// Begins the shutdown. No actor is spawned from now on, and the handles
    /// of those that run are handed out, to be waited for.
    pub fn shutdown_graceful(&mut self) -> (handles: Vec<H>)
        requires
            old(self).wf(),
        ensures
            final(self).wf(),
            final(self)@ == old(self)@.shut_down(),
            is_listing(handles@, old(self)@.actors),
    {
        self.shutting_down = true;
        self.actors.drain()
    }

    /// The task of an actor has ended, in whatever way: its mailbox counts as
    /// closed, the actor as ended, and its name is free.
    pub fn on_task_end(&mut self, name: &String, meter: &mut MailboxMeter)
        requires
            old(self).wf(),
        ensures
            final(self).wf(),
            final(self)@ == old(self)@.without(name@),
            final(meter)@ == old(meter)@.ended(),
    {
        meter.set_closed(true);
        meter.set_terminated(true);
        let _ = self.actors.remove(name);
    }
}

/// Of two actors of one name only one can run: once a name is taken it is
/// refused, until the task of its actor ends.
pub proof fn law_names_are_unique<H>(s: SystemState<H>, name: Seq<char>, handle: H, error: SpawnError)
    requires
        s.admits(name),
    ensures
        !s.with(name, handle).admits(name),
        s.with(name, handle).refuses(name, error) ==> error is NameTaken,
        s.with(name, handle).without(name).admits(name),
        s.with(name, handle).without(name) == s,
{
    assert(s.with(name, handle).without(name).actors =~= s.actors);
}

/// What happens to one name does not touch another.
pub proof fn law_names_are_independent<H>(
    s: SystemState<H>,
    name: Seq<char>,
    other: Seq<char>,
    handle: H,
)
    requires
        name != other,
    ensures
        s.with(name, handle).admits(other) == s.admits(other),
        s.without(name).admits(other) == s.admits(other),
{
}

/// A system that is shutting down spawns no actor, whatever ends meanwhile.
pub proof fn law_shutdown_refuses_all<H>(
    s: SystemState<H>,
    ended: Seq<char>,
    name: Seq<char>,
    error: SpawnError,
)
    ensures
        !s.shut_down().admits(name),
        !s.shut_down().without(ended).admits(name),
        s.shut_down().refuses(name, error) <==> error is ShuttingDown,
{
}

/// What can happen to a system.
pub enum Change<H> {
    /// An actor is spawned, if one of that name can be.
    Spawn { name: Seq<char>, handle: H },
    /// The task of an actor ends.
    End { name: Seq<char> },
    /// The system is shut down.
    ShutDown,
}

impl<H> SystemState<H> {
    pub open spec fn after(self, change: Change<H>) -> SystemState<H> {
        match change {
            Change::Spawn { name, handle } => if self.admits(name) {
                self.with(name, handle)
            } else {
                self
            },
            Change::End { name } => self.without(name),
            Change::ShutDown => self.shut_down(),
        }
    }

    /// The system after all of `changes`.
    pub open spec fn after_all(self, changes: Seq<Change<H>>) -> SystemState<H>
        decreases changes.len(),
    {
        if changes.len() == 0 {
            self
        } else {
            self.after_all(changes.drop_last()).after(changes.last())
        }
    }
}

/// A shutdown is for good: whatever is tried after it, every spawn is refused
/// because of it, and there is no actor left for another shutdown to wait for.
pub proof fn law_shutdown_is_for_good<H>(
    s: SystemState<H>,
    changes: Seq<Change<H>>,
    name: Seq<char>,
    error: SpawnError,
)
    ensures
        s.shut_down().after_all(changes) == s.shut_down(),
        !s.shut_down().after_all(changes).admits(name),
        s.shut_down().after_all(changes).refuses(name, error) <==> error is ShuttingDown,
        forall|handles: Seq<H>|
            #[trigger] is_listing(handles, s.shut_down().after_all(changes).actors)
                ==> handles.len() == 0,
    decreases changes.len(),
{
    if changes.len() > 0 {
        law_shutdown_is_for_good(s, changes.drop_last(), name, error);
    }
    assert(s.shut_down().after_all(changes).actors =~= s.shut_down().actors);
    assert forall|handles: Seq<H>| #[trigger]
        is_listing(handles, s.shut_down().after_all(changes).actors) implies handles.len() == 0 by {
        let order = choose|order: Seq<Seq<char>>|
            lists(order, handles, s.shut_down().after_all(changes).actors);
        if order.len() > 0 {
            assert(order.contains(order[0]));
        }
    }
}

/// A name is admitted just while the system runs and no actor has it; it is
/// refused for the shutdown before it is refused for being taken, and the error
/// then names it.
pub proof fn law_when_a_name_is_admitted<H>(s: SystemState<H>, name: Seq<char>, error: SpawnError)
    ensures
        s.admits(name) <==> !s.shutting_down && !s.actors.contains_key(name),
        s.refuses(name, error) ==> !s.admits(name),
        s.shutting_down ==> (s.refuses(name, error) <==> error is ShuttingDown),
        !s.shutting_down && s.actors.contains_key(name) ==> (s.refuses(name, error) <==> (
        error matches SpawnError::NameTaken(taken) && taken@ == name)),
{
}

/// Taking and freeing a name changes the actor of just that name, and neither
/// begins nor ends a shutdown; a shutdown leaves no actor.
pub proof fn law_what_changes_in_a_system<H>(
    s: SystemState<H>,
    name: Seq<char>,
    handle: H,
    other: Seq<char>,
)
    ensures
        s.with(name, handle).actors.contains_key(name),
        s.with(name, handle).actors[name] == handle,
        !s.without(name).actors.contains_key(name),
        other != name ==> {
            &&& s.with(name, handle).actors.contains_key(other) == s.actors.contains_key(other)
            &&& s.without(name).actors.contains_key(other) == s.actors.contains_key(other)
            &&& s.actors.contains_key(other) ==> s.with(name, handle).actors[other]
                == s.actors[other]
            &&& s.actors.contains_key(other) ==> s.without(name).actors[other] == s.actors[other]
        },
        s.with(name, handle).shutting_down == s.shutting_down,
        s.without(name).shutting_down == s.shutting_down,
        s.shut_down().shutting_down,
        !s.shut_down().actors.contains_key(name),
{
}

/// A new task has the settings of its actor, has counted no panic, and begins
/// with the building of an instance.
pub proof fn law_new_task_has_the_settings(cfg: SpawnConfig)
    ensures
        new_task(cfg).restart_policy == cfg.restart_policy,
        new_task(cfg).shutdown_mode == cfg.shutdown_mode,
        new_task(cfg).restarts == 0,
        new_task(cfg).phase is Building,
{
}

} // verus!
