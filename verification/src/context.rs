//! What an actor can ask of the task that runs it.
use vstd::prelude::*;

verus! {

/// Handed to an actor with each message and at each hook. Its view is whether
/// the actor has asked to be stopped.
pub struct Context {
    stop_requested: bool,
}

impl View for Context {
    type V = bool;

    closed spec fn view(&self) -> bool {
        self.stop_requested
    }
}

impl Context {
    pub fn new() -> (ctx: Self)
        ensures
            !ctx@,
    {
        Context { stop_requested: false }
    }

    /// Asks for the actor to be stopped once the message at hand is done.
    pub fn stop(&mut self)
        ensures
            final(self)@,
    {
        self.stop_requested = true;
    }

    pub fn is_stop_requested(&self) -> (requested: bool)
        ensures
            requested == self@,
    {
        self.stop_requested
    }
}

} // verus!
