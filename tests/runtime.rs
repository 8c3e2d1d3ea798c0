use vrrb_node_core::actor::ActorState;
use vrrb_node_core::graph::BlockGraph;
use vrrb_node_core::router::{NetworkRouter, RouterAction, RouterEvent};
use vrrb_node_core::runtime::{ActorError, ActorEvent, ActorOutput, NodeActor};
use vrrb_node_core::state_manager::{StateEvent, StateManager};

#[test]
fn actors_handle_only_their_own_events() {
    let mut network = NodeActor::Network(NetworkRouter::new("net".into(), None));
    let mut state = NodeActor::State(StateManager::new("state".into(), BlockGraph::new()));
    assert_eq!(network.status(), ActorState::Stopped);
    network.set_status(ActorState::Running);
    assert_eq!(network.status(), ActorState::Running);
    assert_eq!(
        network.handle(ActorEvent::State(StateEvent::NoOp)).err(),
        Some(ActorError::WrongActor)
    );
    assert_eq!(
        state.handle(ActorEvent::Network(RouterEvent::NoOp)).err(),
        Some(ActorError::WrongActor)
    );
    match network.handle(ActorEvent::Network(RouterEvent::Stop)) {
        Ok((ActorState::Terminating, ActorOutput::Network(actions))) => {
            assert!(matches!(&actions[..], [RouterAction::StopDiscovery]))
        },
        _ => panic!("router did not stop"),
    }
    match state.handle(ActorEvent::State(StateEvent::Stop)) {
        Ok((ActorState::Terminating, ActorOutput::State(None))) => {},
        _ => panic!("state manager did not stop"),
    }
    assert_eq!(state.status(), ActorState::Stopped);
}
