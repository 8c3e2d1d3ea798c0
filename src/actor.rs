use vstd::prelude::*;

verus! {

/// The lifecycle state of an actor.
#[derive(Clone, Copy, Debug, PartialEq, Eq, Structural)]
pub enum ActorState {
    Stopped,
    Running,
    Terminating,
}

/// The state after the run loop begins: a stopped actor starts running; an
/// actor in any other state keeps it.
pub open spec fn started(s: ActorState) -> ActorState {
    if s == ActorState::Stopped {
        ActorState::Running
    } else {
        s
    }
}

/// The state after the run loop ends: a terminating actor is stopped; an
/// actor in any other state keeps it.
pub open spec fn finished(s: ActorState) -> ActorState {
    if s == ActorState::Terminating {
        ActorState::Stopped
    } else {
        s
    }
}

/// Identity and lifecycle status that every long-lived component carries.
pub struct Lifecycle {
    id: String,
    status: ActorState,
}

impl Lifecycle {
    /// A new actor identity, initially stopped.
    pub fn new(id: String) -> (r: Lifecycle)
        ensures
            r.spec_id() == id@,
            r.spec_status() == ActorState::Stopped,
    {
        Lifecycle { id, status: ActorState::Stopped }
    }

    pub closed spec fn spec_id(&self) -> Seq<char> {
        self.id@
    }

    pub closed spec fn spec_status(&self) -> ActorState {
        self.status
    }

    pub fn id(&self) -> (r: String)
        ensures
            r@ == self.spec_id(),
    {
        self.id.clone()
    }

    pub fn status(&self) -> (r: ActorState)
        ensures
            r == self.spec_status(),
    {
        self.status
    }

    pub fn set_status(&mut self, status: ActorState)
        ensures
            final(self).spec_status() == status,
            final(self).spec_id() == old(self).spec_id(),
    {
        self.status = status;
    }

    /// Marks the beginning of the run loop.
    pub fn start(&mut self)
        ensures
            final(self).spec_status() == started(old(self).spec_status()),
            final(self).spec_id() == old(self).spec_id(),
    {
        if self.status == ActorState::Stopped {
            self.status = ActorState::Running;
        }
    }

    /// Marks the end of the run loop, once the stop hook has run.
    pub fn finish(&mut self)
        ensures
            final(self).spec_status() == finished(old(self).spec_status()),
            final(self).spec_id() == old(self).spec_id(),
    {
        if self.status == ActorState::Terminating {
            self.status = ActorState::Stopped;
        }
    }
}

} // verus!
