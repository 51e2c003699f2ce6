//! What the caller of a spawn gets back.
use vstd::prelude::*;

verus! {

/// A place for the handle of a task. Who takes the handle out is the one who
/// waits for the task.
pub struct SharedHandle<H> {
    handle: Option<H>,
}

impl<H> View for SharedHandle<H> {
    type V = Option<H>;

    closed spec fn view(&self) -> Option<H> {
        self.handle
    }
}

impl<H> SharedHandle<H> {
    /// A place that is yet to be filled.
    pub fn empty() -> (slot: Self)
        ensures
            slot@ == None::<H>,
    {
        SharedHandle { handle: None }
    }

    pub fn put(&mut self, handle: H)
        ensures
            final(self)@ == Some(handle),
    {
        self.handle = Some(handle);
    }

    /// Takes the handle out: only the first to ask gets it.
    pub fn take(&mut self) -> (handle: Option<H>)
        ensures
            is_take(old(self)@, handle, final(self)@),
            handle == old(self)@,
            final(self)@ == None::<H>,
    {
        self.handle.take()
    }
}

/// `got` is what a taker gets who finds `found` in the place and leaves `left`
/// there: all that there is, and nothing.
pub open spec fn is_take<H>(found: Option<H>, got: Option<H>, left: Option<H>) -> bool {
    got == found && left == None::<H>
}

/// However many come to take a handle, to join the task or to shut the system
/// down, the first gets what there is, and the others get nothing. `slots[i]`
/// is what the taker number `i` finds, and `got[i]` what that taker gets.
pub proof fn law_only_the_first_gets_the_handle<H>(
    slots: Seq<Option<H>>,
    got: Seq<Option<H>>,
    i: int,
)
    requires
        slots.len() == got.len() + 1,
        forall|j: int|
            0 <= j < got.len() ==> is_take(#[trigger] slots[j], got[j], slots[j + 1]),
        0 <= i < got.len(),
    ensures
        got[i] == (if i == 0 {
            slots[0]
        } else {
            None
        }),
        slots[got.len() as int] == None::<H>,
{
    assert(is_take(slots[i], got[i], slots[i + 1]));
    if i > 0 {
        assert(is_take(slots[i - 1], got[i - 1], slots[i]));
    }
    let last = got.len() - 1;
    assert(is_take(slots[last], got[last], slots[last + 1]));
}

/// A reference to an actor, with the place of the handle of its task.
pub struct SpawnHandle<R, S> {
    actor_ref: R,
    handle: S,
}

impl<R, S> SpawnHandle<R, S> {
    pub closed spec fn actor_ref(&self) -> R {
        self.actor_ref
    }

    pub closed spec fn handle(&self) -> S {
        self.handle
    }

    /// With a place that others hold as well.
    pub fn new_shared(actor_ref: R, handle: S) -> (spawned: Self)
        ensures
            spawned.actor_ref() == actor_ref,
            spawned.handle() == handle,
    {
        SpawnHandle { actor_ref, handle }
    }

    /// Another reference to the actor.
    pub fn actor(&self) -> (actor_ref: R) where R: Clone
        ensures
            cloned(self.actor_ref(), actor_ref),
    {
        self.actor_ref.clone()
    }

    pub fn shared(&self) -> (handle: &S)
        ensures
            *handle == self.handle(),
    {
        &self.handle
    }
}

impl<R, H> SpawnHandle<R, SharedHandle<H>> {
    pub fn new(actor_ref: R, handle: H) -> (spawned: Self)
        ensures
            spawned.actor_ref() == actor_ref,
            spawned.handle()@ == Some(handle),
    {
        SpawnHandle { actor_ref, handle: SharedHandle { handle: Some(handle) } }
    }

    /// What there is to wait for: the handle of the task the first time, and
    /// nothing after that.
    pub fn join(&mut self) -> (handle: Option<H>)
        ensures
            is_take(old(self).handle()@, handle, final(self).handle()@),
            handle == old(self).handle()@,
            final(self).handle()@ == None::<H>,
            final(self).actor_ref() == old(self).actor_ref(),
    {
        self.handle.take()
    }
}

} // verus!
