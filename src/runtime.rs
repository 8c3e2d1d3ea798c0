use vstd::prelude::*;

use crate::actor::ActorState;
use crate::router::{router_step, NetworkRouter, RouterAction, RouterEvent};
use crate::state_manager::{state_step, StateEvent, StateManager, StateOutput};

verus! {

/// Every long-lived component of the node, behind one lifecycle interface.
pub enum NodeActor {
    State(StateManager),
    Network(NetworkRouter),
}

/// An event addressed to one kind of actor.
pub enum ActorEvent {
    State(StateEvent),
    Network(RouterEvent),
}

/// What an actor's `handle` produced.
pub enum ActorOutput {
    State(Option<StateOutput>),
    Network(Vec<RouterAction>),
}

/// Why an actor did not handle an event.
#[derive(Clone, Copy, Debug, PartialEq, Eq, Structural)]
pub enum ActorError {
    /// The event is meant for another kind of actor.
    WrongActor,
}

impl NodeActor {
    pub open spec fn wf(&self) -> bool {
        match self {
            NodeActor::State(s) => s.wf(),
            NodeActor::Network(n) => n.wf(),
        }
    }

    pub open spec fn spec_status(&self) -> ActorState {
        match self {
            NodeActor::State(s) => s.spec_status(),
            NodeActor::Network(n) => n.spec_status(),
        }
    }

    pub fn status(&self) -> (r: ActorState)
        ensures
            r == self.spec_status(),
    {
        match self {
            NodeActor::State(s) => s.status(),
            NodeActor::Network(n) => n.status(),
        }
    }

    pub fn set_status(&mut self, status: ActorState)
        requires
            old(self).wf(),
        ensures
            final(self).wf(),
            final(self).spec_status() == status,
            *old(self) matches NodeActor::State(s0) ==> (*final(self) matches NodeActor::State(s1)
                && s1.spec_id() == s0.spec_id() && s1.ledger_view() == s0.ledger_view()
                && s1.mempool_view() == s0.mempool_view() && s1.dag_view() == s0.dag_view()
                && s1.claims_view() == s0.claims_view()),
            *old(self) matches NodeActor::Network(n0) ==> (*final(self) matches NodeActor::Network(n1)
                && n1.spec_id() == n0.spec_id() && n1.quorum_view() == n0.quorum_view()),
    {
        match self {
            NodeActor::State(s) => s.set_status(status),
            NodeActor::Network(n) => n.set_status(status),
        }
    }

    /// Handles one event and returns the actor's next status with what it
    /// produced. An event for another kind of actor is refused and changes
    /// nothing.
    pub fn handle(&mut self, event: ActorEvent) -> (r: Result<(ActorState, ActorOutput), ActorError>)
        requires
            old(self).wf(),
        ensures
            final(self).wf(),
            final(self).spec_status() == old(self).spec_status(),
            r is Err <==> match (*old(self), event) {
                (NodeActor::State(_), ActorEvent::State(_)) => false,
                (NodeActor::Network(_), ActorEvent::Network(_)) => false,
                _ => true,
            },
            r is Err ==> *final(self) == *old(self),
            (*old(self), event) matches (NodeActor::State(s0), ActorEvent::State(e)) ==> (
            *final(self) matches NodeActor::State(s1) && r matches Ok((st, ActorOutput::State(o)))
                && state_step(s0, e, s1, (st, o))),
            (*old(self), event) matches (NodeActor::Network(n0), ActorEvent::Network(e)) ==> (
            *final(self) matches NodeActor::Network(n1) && r matches Ok(
                (st, ActorOutput::Network(actions)),
            ) && router_step(n0, e, n1, (st, actions@))),
            r matches Ok((status, _)) ==> status == match event {
                ActorEvent::State(StateEvent::Stop) => ActorState::Terminating,
                ActorEvent::Network(RouterEvent::Stop) => ActorState::Terminating,
                _ => ActorState::Running,
            },
    {
        match (self, event) {
            (NodeActor::State(s), ActorEvent::State(e)) => {
                let (status, out) = s.handle(e);
                Ok((status, ActorOutput::State(out)))
            },
            (NodeActor::Network(n), ActorEvent::Network(e)) => {
                let (status, out) = n.handle(e);
                Ok((status, ActorOutput::Network(out)))
            },
            _ => Err(ActorError::WrongActor),
        }
    }
}

} // verus!
