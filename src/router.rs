use vstd::prelude::*;

use crate::actor::{ActorState, Lifecycle};
use crate::block::Claim;

verus! {

/// The role a node plays in the network.
#[derive(Clone, Copy, Debug, PartialEq, Eq, Structural)]
pub enum NodeType {
    Full,
    Light,
    Bootstrap,
    Validator,
    Miner,
}

/// What a peer announces when it joins.
pub struct PeerData {
    pub node_id: String,
    pub node_type: NodeType,
    pub peer_id: String,
    pub udp_gossip_addr: String,
    pub raptorq_gossip_addr: String,
    pub liveness_addr: String,
}

/// The events the router consumes.
pub enum RouterEvent {
    PeerJoined(PeerData),
    ClaimCreated { node_id: String, claim: Claim },
    Stop,
    NoOp,
}

/// The events the router publishes.
pub enum RouterOutput {
    NodeAddedToPeerList(PeerData),
    GenesisQuorumMembersAvailable,
}

/// The work the router asks its collaborators to do, in order.
pub enum RouterAction {
    /// Register a peer's liveness address with peer discovery.
    InsertPeer { peer_id: String, liveness_addr: String },
    /// Publish an event on the bus.
    Publish(RouterOutput),
    /// Broadcast a claim to the peers.
    BroadcastClaim(Claim),
    /// Shut peer discovery down.
    StopDiscovery,
}

/// The quorum-bootstrap state: each configured member and whether it was
/// seen online, and whether the ready event has been emitted.
pub struct QuorumView {
    pub members: Seq<Seq<char>>,
    pub online: Seq<bool>,
    pub ready: bool,
}

pub open spec fn all_online(online: Seq<bool>) -> bool {
    forall|i: int| 0 <= i < online.len() ==> #[trigger] online[i]
}

/// Every entry for `node` set online.
pub open spec fn marked_online(q: QuorumView, node: Seq<char>) -> Seq<bool> {
    Seq::new(q.online.len(), |i: int| q.online[i] || q.members[i] == node)
}

/// Whether `node` joining makes the router emit the ready event: it was not
/// emitted before, and every member is now online.
pub open spec fn emits_ready(q: QuorumView, node: Seq<char>) -> bool {
    !q.ready && all_online(marked_online(q, node))
}

/// The quorum state after `node` joins.
pub open spec fn joined(q: QuorumView, node: Seq<char>) -> QuorumView {
    QuorumView {
        members: q.members,
        online: marked_online(q, node),
        ready: q.ready || emits_ready(q, node),
    }
}

/// The quorum state after each of `nodes` joins, in order.
pub open spec fn joined_all(q: QuorumView, nodes: Seq<Seq<char>>) -> QuorumView
    decreases nodes.len(),
{
    if nodes.len() == 0 {
        q
    } else {
        joined(joined_all(q, nodes.drop_last()), nodes.last())
    }
}

/// How many ready events the joins of `nodes` emit.
pub open spec fn ready_events(q: QuorumView, nodes: Seq<Seq<char>>) -> nat
    decreases nodes.len(),
{
    if nodes.len() == 0 {
        0
    } else {
        ready_events(q, nodes.drop_last()) + if emits_ready(
            joined_all(q, nodes.drop_last()),
            nodes.last(),
        ) {
            1nat
        } else {
            0nat
        }
    }
}

/// Whether the state is one the router can be in: lengths agree, and the
/// ready event was emitted only with every member online.
pub open spec fn quorum_wf(q: QuorumView) -> bool {
    &&& q.members.len() == q.online.len()
    &&& q.ready ==> all_online(q.online)
}

/// Over any non-empty sequence of joins, repeated ones included, the ready
/// event is emitted exactly once if every member ends up online and it had
/// not been emitted before, and never otherwise.
pub proof fn lemma_ready_at_most_once(q: QuorumView, nodes: Seq<Seq<char>>)
    requires
        quorum_wf(q),
        nodes.len() > 0,
    ensures
        quorum_wf(joined_all(q, nodes)),
        joined_all(q, nodes).ready == (q.ready || all_online(joined_all(q, nodes).online)),
        ready_events(q, nodes) == if !q.ready && all_online(joined_all(q, nodes).online) {
            1nat
        } else {
            0nat
        },
    decreases nodes.len(),
{
    let prev = joined_all(q, nodes.drop_last());
    if nodes.len() > 1 {
        lemma_ready_at_most_once(q, nodes.drop_last());
    } else {
        assert(prev == q);
        assert(ready_events(q, nodes.drop_last()) == 0);
    }
    {
        let next = joined(prev, nodes.last());
        assert(joined_all(q, nodes) == next);
        assert(ready_events(q, nodes) == ready_events(q, nodes.drop_last()) + if emits_ready(
            prev,
            nodes.last(),
        ) {
            1nat
        } else {
            0nat
        });
        if all_online(prev.online) {
            assert forall|i: int| 0 <= i < next.online.len() implies #[trigger] next.online[i] by {
                assert(prev.online[i]);
            }
        }
        assert(next.online.len() == prev.online.len());
        assert(next.members == prev.members);
    }
}

/// A member that joins again once the ready event was emitted changes
/// nothing and emits nothing.
pub proof fn lemma_rejoin_is_idempotent(q: QuorumView, node: Seq<char>)
    requires
        quorum_wf(q),
    ensures
        !emits_ready(joined(q, node), node),
        joined(joined(q, node), node) == joined(q, node),
{
    let q1 = joined(q, node);
    assert(marked_online(q1, node) =~= q1.online);
}

/// The router's quorum-bootstrap tracker.
pub struct QuorumBootstrap {
    members: Vec<String>,
    online: Vec<bool>,
    ready: bool,
}

impl View for QuorumBootstrap {
    type V = QuorumView;

    closed spec fn view(&self) -> QuorumView {
        QuorumView {
            members: self.members@.map_values(|s: String| s@),
            online: self.online@,
            ready: self.ready,
        }
    }
}

impl QuorumBootstrap {
    /// Tracks `members`, none of them online yet.
    pub fn new(members: Vec<String>) -> (r: QuorumBootstrap)
        ensures
            quorum_wf(r@),
            r@.members == members@.map_values(|s: String| s@),
            r@.online == Seq::new(members@.len(), |i: int| false),
            !r@.ready,
    {
        let mut online: Vec<bool> = Vec::new();
        let mut i: usize = 0;
        while i < members.len()
            invariant
                i <= members.len(),
                online@ =~= Seq::new(i as nat, |k: int| false),
            decreases members.len() - i,
        {
            online.push(false);
            i = i + 1;
        }
        QuorumBootstrap { members, online, ready: false }
    }

    pub fn is_ready(&self) -> (r: bool)
        ensures
            r == self@.ready,
    {
        self.ready
    }

    /// Records that `node` joined. Returns whether the ready event is due.
    pub fn peer_joined(&mut self, node: &String) -> (r: bool)
        requires
            quorum_wf(old(self)@),
        ensures
            quorum_wf(final(self)@),
            final(self)@ == joined(old(self)@, node@),
            r == emits_ready(old(self)@, node@),
    {
        let ghost q0 = self@;
        let mut i: usize = 0;
        while i < self.members.len()
            invariant
                i <= self.members.len(),
                self.members@.len() == self.online@.len(),
                q0.online.len() == self.online@.len(),
                q0.members == self@.members,
                q0.ready == self.ready,
                forall|k: int|
                    0 <= k < self.online@.len() ==> #[trigger] self.online@[k] == if k < i {
                        marked_online(q0, node@)[k]
                    } else {
                        q0.online[k]
                    },
            decreases self.members.len() - i,
        {
            assert(self@.members[i as int] == self.members@[i as int]@);
            if self.members[i].eq(node) {
                self.online.set(i, true);
            }
            i = i + 1;
        }
        assert(self.online@ =~= marked_online(q0, node@));
        let mut all = true;
        let mut j: usize = 0;
        while j < self.online.len()
            invariant
                j <= self.online.len(),
                all == forall|k: int| 0 <= k < j ==> #[trigger] self.online@[k],
            decreases self.online.len() - j,
        {
            if !self.online[j] {
                all = false;
            }
            j = j + 1;
        }
        let emit = !self.ready && all;
        if emit {
            self.ready = true;
        }
        emit
    }
}

/// One step of the router: `n1` and `r` are what handling `event` in state
/// `n0` gives.
pub open spec fn router_step(
    n0: NetworkRouter,
    event: RouterEvent,
    n1: NetworkRouter,
    r: (ActorState, Seq<RouterAction>),
) -> bool {
    &&& n1.spec_id() == n0.spec_id()
    &&& n1.spec_status() == n0.spec_status()
    &&& r.0 == (if event is Stop {
        ActorState::Terminating
    } else {
        ActorState::Running
    })
    &&& match event {
        RouterEvent::PeerJoined(p) => {
            let emit = n0.quorum_view() matches Some(q) && emits_ready(
                q,
                p.node_id@,
            );
            &&& n1.quorum_view() == match n0.quorum_view() {
                Some(q) => Some(joined(q, p.node_id@)),
                None => None::<QuorumView>,
            }
            &&& r.1.len() == if emit {
                3int
            } else {
                2int
            }
            &&& r.1[0] matches RouterAction::InsertPeer { peer_id, liveness_addr }
                && peer_id@ == p.peer_id@ && liveness_addr@ == p.liveness_addr@
            &&& r.1[1] matches RouterAction::Publish(
                RouterOutput::NodeAddedToPeerList(d),
            ) && d == p
            &&& emit ==> r.1[2] matches RouterAction::Publish(
                RouterOutput::GenesisQuorumMembersAvailable,
            )
        },
        RouterEvent::ClaimCreated { claim, .. } => {
            &&& n1.quorum_view() == n0.quorum_view()
            &&& r.1.len() == 1
            &&& r.1[0] matches RouterAction::BroadcastClaim(c) && c == claim
        },
        RouterEvent::Stop => {
            &&& n1.quorum_view() == n0.quorum_view()
            &&& r.1.len() == 1
            &&& r.1[0] is StopDiscovery
        },
        RouterEvent::NoOp => {
            &&& n1.quorum_view() == n0.quorum_view()
            &&& r.1.len() == 0
        },
    }
}

/// The router between the network and the rest of the node: it registers
/// joining peers, tracks the bootstrap quorum, and forwards claims.
pub struct NetworkRouter {
    lifecycle: Lifecycle,
    quorum: Option<QuorumBootstrap>,
}

impl NetworkRouter {
    pub closed spec fn quorum_view(&self) -> Option<QuorumView> {
        match self.quorum {
            Some(q) => Some(q@),
            None => None,
        }
    }

    pub closed spec fn spec_status(&self) -> ActorState {
        self.lifecycle.spec_status()
    }

    pub closed spec fn spec_id(&self) -> Seq<char> {
        self.lifecycle.spec_id()
    }

    pub open spec fn wf(&self) -> bool {
        self.quorum_view() matches Some(q) ==> quorum_wf(q)
    }

    /// A router that tracks `quorum_members` when there is a bootstrap
    /// quorum, and no quorum otherwise.
    pub fn new(id: String, quorum_members: Option<Vec<String>>) -> (r: NetworkRouter)
        ensures
            r.wf(),
            r.spec_id() == id@,
            r.spec_status() == ActorState::Stopped,
            quorum_members is None ==> r.quorum_view() is None,
            quorum_members matches Some(m) ==> r.quorum_view() == Some(
                QuorumView {
                    members: m@.map_values(|s: String| s@),
                    online: Seq::new(m@.len(), |i: int| false),
                    ready: false,
                },
            ),
    {
        let quorum = match quorum_members {
            Some(m) => Some(QuorumBootstrap::new(m)),
            None => None,
        };
        NetworkRouter { lifecycle: Lifecycle::new(id), quorum }
    }

    pub fn id(&self) -> (r: String)
        ensures
            r@ == self.spec_id(),
    {
        self.lifecycle.id()
    }

    pub fn status(&self) -> (r: ActorState)
        ensures
            r == self.spec_status(),
    {
        self.lifecycle.status()
    }

    pub fn set_status(&mut self, status: ActorState)
        ensures
            final(self).spec_status() == status,
            final(self).spec_id() == old(self).spec_id(),
            final(self).quorum_view() == old(self).quorum_view(),
    {
        self.lifecycle.set_status(status);
    }

    /// Handles one event; returns the next status and the actions to
    /// perform, in order.
    pub fn handle(&mut self, event: RouterEvent) -> (r: (ActorState, Vec<RouterAction>))
        requires
            old(self).wf(),
        ensures
            final(self).wf(),
            router_step(*old(self), event, *final(self), (r.0, r.1@)),
    {
        let mut actions: Vec<RouterAction> = Vec::new();
        match event {
            RouterEvent::PeerJoined(peer) => {
                actions.push(
                    RouterAction::InsertPeer {
                        peer_id: peer.peer_id.clone(),
                        liveness_addr: peer.liveness_addr.clone(),
                    },
                );
                let emit = match &mut self.quorum {
                    Some(q) => q.peer_joined(&peer.node_id),
                    None => false,
                };
                actions.push(RouterAction::Publish(RouterOutput::NodeAddedToPeerList(peer)));
                if emit {
                    actions.push(RouterAction::Publish(RouterOutput::GenesisQuorumMembersAvailable));
                }
                (ActorState::Running, actions)
            },
            RouterEvent::ClaimCreated { claim, .. } => {
                actions.push(RouterAction::BroadcastClaim(claim));
                (ActorState::Running, actions)
            },
            RouterEvent::Stop => {
                actions.push(RouterAction::StopDiscovery);
                (ActorState::Terminating, actions)
            },
            RouterEvent::NoOp => (ActorState::Running, actions),
        }
    }
}

} // verus!
