use vstd::prelude::*;

use crate::block::{Claim, Txn};
use crate::router::{NodeType, PeerData, RouterEvent};

verus! {

/// Data transmitted over the network by the nodes that take part in it.
#[allow(inconsistent_fields)]
pub enum NetworkEvent {
    ClaimCreated { node_id: String, claim: Claim },
    ClaimAbandoned { claim: Vec<u8>, sender_id: String },
    PeerJoined {
        node_id: String,
        node_type: NodeType,
        kademlia_peer_id: String,
        udp_gossip_addr: String,
        raptorq_gossip_addr: String,
        kademlia_liveness_addr: String,
    },
    /// Peer is unresponsive or signaled its intent to leave the network.
    PeerUnregistered { peer_id: String, socket_addr: String },
    ForwardedTxn(Txn),
    Ping(String),
    Empty,
}

impl NetworkEvent {
    /// The event the router handles for this network event: joins and claims
    /// pass through, an empty event is a no-op, and the others are not the
    /// router's.
    pub fn into_router_event(self) -> (r: Option<RouterEvent>)
        ensures
            match self {
                NetworkEvent::ClaimCreated { node_id, claim } => r matches Some(
                    RouterEvent::ClaimCreated { node_id: n, claim: c },
                ) && n == node_id && c == claim,
                NetworkEvent::PeerJoined {
                    node_id,
                    node_type,
                    kademlia_peer_id,
                    udp_gossip_addr,
                    raptorq_gossip_addr,
                    kademlia_liveness_addr,
                } => r matches Some(RouterEvent::PeerJoined(p)) && p == (PeerData {
                    node_id,
                    node_type,
                    peer_id: kademlia_peer_id,
                    udp_gossip_addr,
                    raptorq_gossip_addr,
                    liveness_addr: kademlia_liveness_addr,
                }),
                NetworkEvent::Empty => r matches Some(RouterEvent::NoOp),
                _ => r is None,
            },
    {
        match self {
            NetworkEvent::ClaimCreated { node_id, claim } => Some(
                RouterEvent::ClaimCreated { node_id, claim },
            ),
            NetworkEvent::PeerJoined {
                node_id,
                node_type,
                kademlia_peer_id,
                udp_gossip_addr,
                raptorq_gossip_addr,
                kademlia_liveness_addr,
            } => Some(
                RouterEvent::PeerJoined(
                    PeerData {
                        node_id,
                        node_type,
                        peer_id: kademlia_peer_id,
                        udp_gossip_addr,
                        raptorq_gossip_addr,
                        liveness_addr: kademlia_liveness_addr,
                    },
                ),
            ),
            NetworkEvent::Empty => Some(RouterEvent::NoOp),
            _ => None,
        }
    }
}

} // verus!
