use vrrb_node_core::actor::{ActorState, Lifecycle};
use vrrb_node_core::block::Claim;
use vrrb_node_core::network_event::NetworkEvent;
use vrrb_node_core::router::{
    NetworkRouter, NodeType, PeerData, QuorumBootstrap, RouterAction, RouterEvent, RouterOutput,
};

fn peer(node: &str) -> RouterEvent {
    RouterEvent::PeerJoined(PeerData {
        node_id: node.to_string(),
        node_type: NodeType::Validator,
        peer_id: format!("peer-{node}"),
        udp_gossip_addr: "127.0.0.1:9000".into(),
        raptorq_gossip_addr: "127.0.0.1:9001".into(),
        liveness_addr: "127.0.0.1:9002".into(),
    })
}

fn ready_count(actions: &[RouterAction]) -> usize {
    actions
        .iter()
        .filter(|a| matches!(a, RouterAction::Publish(RouterOutput::GenesisQuorumMembersAvailable)))
        .count()
}

#[test]
fn quorum_ready_fires_once_despite_repeated_joins() {
    let mut r = NetworkRouter::new("net".into(), Some(vec!["n1".into(), "n2".into()]));
    let mut fired_at = Vec::new();
    for (step, node) in ["n1", "n1", "outsider", "n2", "n2", "n1"].into_iter().enumerate() {
        let (status, actions) = r.handle(peer(node));
        assert_eq!(status, ActorState::Running);
        match &actions[0] {
            RouterAction::InsertPeer { peer_id, liveness_addr } => {
                assert_eq!(peer_id, &format!("peer-{node}"));
                assert_eq!(liveness_addr, "127.0.0.1:9002");
            },
            _ => panic!("peer not registered"),
        }
        match &actions[1] {
            RouterAction::Publish(RouterOutput::NodeAddedToPeerList(p)) => {
                assert_eq!(p.node_id, node)
            },
            _ => panic!("peer not announced"),
        }
        if ready_count(&actions) == 1 {
            assert_eq!(actions.len(), 3);
            fired_at.push(step);
        } else {
            assert_eq!(actions.len(), 2);
        }
    }
    assert_eq!(fired_at, vec![3]);
}

#[test]
fn quorum_tracker_reports_readiness() {
    let mut q = QuorumBootstrap::new(vec!["a".into(), "b".into()]);
    assert!(!q.peer_joined(&"a".to_string()));
    assert!(!q.is_ready());
    assert!(q.peer_joined(&"b".to_string()));
    assert!(q.is_ready());
    assert!(!q.peer_joined(&"b".to_string()));
}

#[test]
fn router_without_quorum_never_fires() {
    let mut r = NetworkRouter::new("net".into(), None);
    let (_, actions) = r.handle(peer("n1"));
    assert_eq!(actions.len(), 2);
    assert_eq!(ready_count(&actions), 0);
}

#[test]
fn claims_are_broadcast_and_stop_terminates() {
    let mut r = NetworkRouter::new("net".into(), Some(vec![]));
    let claim = Claim::new("n1".into(), "addr".into(), "sig".into());
    let hash = claim.hash.clone();
    let (status, actions) = r.handle(RouterEvent::ClaimCreated { node_id: "n1".into(), claim });
    assert_eq!(status, ActorState::Running);
    match &actions[..] {
        [RouterAction::BroadcastClaim(c)] => assert_eq!(c.hash, hash),
        _ => panic!("claim not broadcast"),
    }
    let (status, actions) = r.handle(RouterEvent::NoOp);
    assert_eq!(status, ActorState::Running);
    assert!(actions.is_empty());
    let (status, actions) = r.handle(RouterEvent::Stop);
    assert_eq!(status, ActorState::Terminating);
    assert!(matches!(&actions[..], [RouterAction::StopDiscovery]));
}

#[test]
fn empty_quorum_is_ready_at_first_join() {
    let mut r = NetworkRouter::new("net".into(), Some(vec![]));
    let (_, actions) = r.handle(peer("n1"));
    assert_eq!(ready_count(&actions), 1);
    let (_, actions) = r.handle(peer("n1"));
    assert_eq!(ready_count(&actions), 0);
}

#[test]
fn lifecycle_runs_from_stopped_to_stopped() {
    let mut l = Lifecycle::new("actor".into());
    assert_eq!(l.status(), ActorState::Stopped);
    l.start();
    assert_eq!(l.status(), ActorState::Running);
    l.finish();
    assert_eq!(l.status(), ActorState::Running);
    l.set_status(ActorState::Terminating);
    l.finish();
    assert_eq!(l.status(), ActorState::Stopped);
    assert_eq!(l.id(), "actor");
    let mut r = NetworkRouter::new("net".into(), None);
    r.set_status(ActorState::Running);
    assert_eq!(r.status(), ActorState::Running);
    assert_eq!(r.id(), "net");
}

#[test]
fn network_events_map_onto_router_events() {
    let joined = NetworkEvent::PeerJoined {
        node_id: "n1".into(),
        node_type: NodeType::Miner,
        kademlia_peer_id: "k1".into(),
        udp_gossip_addr: "u".into(),
        raptorq_gossip_addr: "q".into(),
        kademlia_liveness_addr: "l".into(),
    };
    match joined.into_router_event() {
        Some(RouterEvent::PeerJoined(p)) => {
            assert_eq!(p.peer_id, "k1");
            assert_eq!(p.liveness_addr, "l");
            assert_eq!(p.node_type, NodeType::Miner);
        },
        _ => panic!("join not forwarded"),
    }
    assert!(matches!(NetworkEvent::Empty.into_router_event(), Some(RouterEvent::NoOp)));
    assert!(NetworkEvent::Ping("n1".into()).into_router_event().is_none());
    let claim = Claim::new("n1".into(), "a".into(), "s".into());
    assert!(matches!(
        NetworkEvent::ClaimCreated { node_id: "n1".into(), claim }.into_router_event(),
        Some(RouterEvent::ClaimCreated { .. })
    ));
}
