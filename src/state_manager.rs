use vstd::prelude::*;

use crate::actor::{ActorState, Lifecycle};
use crate::block::{claim_views, Block, Claim, ClaimView, Txn, TxnView};
use crate::graph::{BlockGraph, GraphView};
use crate::ledger::{
    apply_txns, verdicts, AccountLedger, AccountsHandle, LedgerView, Rejection,
};
use crate::mempool::{without_digests, Mempool, MempoolHandle, MempoolView};

verus! {

/// The transactions of the proposal `h`, or none when `h` is not a proposal
/// of the graph.
pub open spec fn proposal_txns(g: GraphView, h: Seq<char>) -> Seq<TxnView> {
    if g.contains(h) && g.vertices[g.position(h)] is Proposal {
        g.vertices[g.position(h)]->Proposal_txns
    } else {
        seq![]
    }
}

/// The transactions of the proposals `refs`, in order.
pub open spec fn gathered_txns(g: GraphView, refs: Seq<Seq<char>>) -> Seq<TxnView>
    decreases refs.len(),
{
    if refs.len() == 0 {
        seq![]
    } else {
        gathered_txns(g, refs.drop_last()) + proposal_txns(g, refs.last())
    }
}

/// The transactions that applying block `h` walks: those of the proposals a
/// convergence block references; none for any other block.
pub open spec fn block_txns(g: GraphView, h: Seq<char>) -> Seq<TxnView> {
    if g.contains(h) && g.vertices[g.position(h)] is Convergence {
        gathered_txns(g, g.vertices[g.position(h)]->Convergence_refs)
    } else {
        seq![]
    }
}

/// The claims of the proposal `h`, or none when `h` is not a proposal of
/// the graph.
pub open spec fn proposal_claims(g: GraphView, h: Seq<char>) -> Seq<ClaimView> {
    if g.contains(h) && g.vertices[g.position(h)] is Proposal {
        g.vertices[g.position(h)]->Proposal_claims
    } else {
        seq![]
    }
}

/// The claims of the proposals `refs`, in order.
pub open spec fn gathered_claims(g: GraphView, refs: Seq<Seq<char>>) -> Seq<ClaimView>
    decreases refs.len(),
{
    if refs.len() == 0 {
        seq![]
    } else {
        gathered_claims(g, refs.drop_last()) + proposal_claims(g, refs.last())
    }
}

/// The claims that applying block `h` records.
pub open spec fn block_claims(g: GraphView, h: Seq<char>) -> Seq<ClaimView> {
    if g.contains(h) && g.vertices[g.position(h)] is Convergence {
        gathered_claims(g, g.vertices[g.position(h)]->Convergence_refs)
    } else {
        seq![]
    }
}

pub open spec fn has_claim(cs: Seq<ClaimView>, hash: Seq<char>) -> bool {
    exists|i: int| 0 <= i < cs.len() && #[trigger] cs[i].hash == hash
}

/// The claim store after recording `c`: a claim whose hash is new is
/// appended; otherwise nothing changes.
pub open spec fn with_claim(cs: Seq<ClaimView>, c: ClaimView) -> Seq<ClaimView> {
    if has_claim(cs, c.hash) {
        cs
    } else {
        cs.push(c)
    }
}

pub open spec fn with_claims(cs: Seq<ClaimView>, more: Seq<ClaimView>) -> Seq<ClaimView>
    decreases more.len(),
{
    if more.len() == 0 {
        cs
    } else {
        with_claim(with_claims(cs, more.drop_last()), more.last())
    }
}

pub open spec fn digests_of(txs: Seq<TxnView>) -> Seq<Seq<char>> {
    txs.map_values(|t: TxnView| t.digest)
}

proof fn lemma_referenced_txn_gathered(g: GraphView, refs: Seq<Seq<char>>, k: int, j: int)
    requires
        0 <= k < refs.len(),
        0 <= j < proposal_txns(g, refs[k]).len(),
    ensures
        digests_of(gathered_txns(g, refs)).contains(proposal_txns(g, refs[k])[j].digest),
    decreases refs.len(),
{
    let prefix = gathered_txns(g, refs.drop_last());
    let all = gathered_txns(g, refs);
    if k == refs.len() - 1 {
        assert(all[prefix.len() + j] == proposal_txns(g, refs[k])[j]);
        assert(digests_of(all)[prefix.len() + j] == proposal_txns(g, refs[k])[j].digest);
    } else {
        lemma_referenced_txn_gathered(g, refs.drop_last(), k, j);
        assert(refs.drop_last()[k] == refs[k]);
        let i = choose|i: int|
            0 <= i < digests_of(prefix).len() && digests_of(prefix)[i] == proposal_txns(
                g,
                refs[k],
            )[j].digest;
        assert(all[i] == prefix[i]);
        assert(digests_of(all)[i] == digests_of(prefix)[i]);
    }
}

/// Applying a convergence block evicts from the mempool every transaction
/// that a proposal it references carries, and keeps every pending
/// transaction that none of them carries.
pub proof fn lemma_applied_block_evicts(
    p: Seq<TxnView>,
    g: GraphView,
    h: Seq<char>,
    d: Seq<char>,
)
    requires
        crate::mempool::distinct_digests(p),
    ensures
        crate::mempool::has_digest(without_digests(p, digests_of(block_txns(g, h))), d) <==> (
        crate::mempool::has_digest(p, d) && !digests_of(block_txns(g, h)).contains(d)),
        g.contains(h) && g.vertices[g.position(h)] is Convergence ==> forall|k: int, j: int|
            0 <= k < g.vertices[g.position(h)]->Convergence_refs.len() && 0 <= j < proposal_txns(
                g,
                g.vertices[g.position(h)]->Convergence_refs[k],
            ).len() && #[trigger] proposal_txns(
                g,
                g.vertices[g.position(h)]->Convergence_refs[k],
            )[j].digest == d ==> !crate::mempool::has_digest(
                without_digests(p, digests_of(block_txns(g, h))),
                d,
            ),
{
    crate::mempool::lemma_mempool_retention(p, digests_of(block_txns(g, h)), d);
    if g.contains(h) && g.vertices[g.position(h)] is Convergence {
        let refs = g.vertices[g.position(h)]->Convergence_refs;
        assert forall|k: int, j: int|
            0 <= k < refs.len() && 0 <= j < proposal_txns(g, refs[k]).len()
                && #[trigger] proposal_txns(g, refs[k])[j].digest == d implies !crate::mempool::has_digest(
            without_digests(p, digests_of(block_txns(g, h))),
            d,
        ) by {
            lemma_referenced_txn_gathered(g, refs, k, j);
        }
    }
}

/// Why `update_state` did not apply a block.
#[derive(Clone, Copy, Debug, PartialEq, Eq, Structural)]
pub enum StateError {
    BlockNotFound,
    UnconvergedProposal,
}

/// What `update_state` did: each transaction's digest and its verdict
/// (`None` when applied), in the order they were applied.
pub struct ApplyReport {
    pub digests: Vec<String>,
    pub verdicts: Vec<Option<Rejection>>,
}

/// The events the state manager consumes.
pub enum StateEvent {
    NewTxnCreated(Txn),
    BlockConverged(String),
    Stop,
    NoOp,
}

/// The events the state manager publishes.
pub enum StateOutput {
    TxnAddedToMempool(String),
    StateUpdated(String),
    BlockNotApplied(String, StateError),
}

fn record_claim(store: &mut Vec<Claim>, c: &Claim)
    ensures
        claim_views(final(store)@) == with_claim(claim_views(old(store)@), c@),
{
    let ghost cs = claim_views(store@);
    let mut i: usize = 0;
    while i < store.len()
        invariant
            i <= store.len(),
            cs == claim_views(store@),
            forall|j: int| 0 <= j < i ==> #[trigger] cs[j].hash != c@.hash,
        decreases store.len() - i,
    {
        assert(cs[i as int] == store@[i as int]@);
        if store[i].hash.eq(&c.hash) {
            assert(cs[i as int].hash == c@.hash);
            return;
        }
        i = i + 1;
    }
    store.push(c.duplicate());
    assert(claim_views(store@) =~= cs.push(c@));
}

/// One step of the state manager: `s1` and `r` are what handling `event`
/// in state `s0` gives.
pub open spec fn state_step(
    s0: StateManager,
    event: StateEvent,
    s1: StateManager,
    r: (ActorState, Option<StateOutput>),
) -> bool {
    &&& s1.dag_view() == s0.dag_view()
    &&& s1.spec_status() == s0.spec_status()
    &&& s1.spec_id() == s0.spec_id()
    &&& r.0 == (if event is Stop {
        ActorState::Terminating
    } else {
        ActorState::Running
    })
    &&& !(event is BlockConverged) ==> s1.claims_view() == s0.claims_view()
    &&& event is Stop || event is NoOp ==> s1.ledger_view() == s0.ledger_view()
        && s1.mempool_view() == s0.mempool_view() && r.1 is None
    &&& event matches StateEvent::NewTxnCreated(t) ==> {
        let fresh = !crate::mempool::has_digest(s0.mempool_view().staged, t@.digest);
        &&& s1.ledger_view() == s0.ledger_view()
        &&& s1.mempool_view().staged == (if fresh {
            s0.mempool_view().staged.push(t@)
        } else {
            s0.mempool_view().staged
        })
        &&& s1.mempool_view().published == s1.mempool_view().staged
        &&& fresh ==> (r.1 matches Some(StateOutput::TxnAddedToMempool(d)) && d@ == t@.digest)
        &&& !fresh ==> r.1 is None
    }
    &&& event matches StateEvent::BlockConverged(h) ==> {
        let g = s0.dag_view();
        let applies = g.contains(h@) && !(g.vertices[g.position(h@)] is Proposal);
        &&& applies ==> (r.1 matches Some(StateOutput::StateUpdated(u)) && u@ == h@)
        &&& applies ==> s1.ledger_view().staged == apply_txns(
            s0.ledger_view().staged,
            block_txns(g, h@),
        )
        &&& applies ==> s1.mempool_view().staged == without_digests(
            s0.mempool_view().staged,
            digests_of(block_txns(g, h@)),
        )
        &&& applies ==> s1.ledger_view().published == s1.ledger_view().staged
        &&& applies ==> s1.mempool_view().published == s1.mempool_view().staged
        &&& applies ==> s1.claims_view() == with_claims(s0.claims_view(), block_claims(g, h@))
        &&& !applies ==> (r.1 matches Some(StateOutput::BlockNotApplied(u, e)) && u@ == h@ && e
            == (if !g.contains(h@) {
            StateError::BlockNotFound
        } else {
            StateError::UnconvergedProposal
        }))
        &&& !applies ==> s1.claims_view() == s0.claims_view()
        &&& !applies ==> s1.ledger_view() == s0.ledger_view()
        &&& !applies ==> s1.mempool_view() == s0.mempool_view()
    }
}

/// The state manager: it owns the account ledger, the mempool and the block
/// graph, and applies converged blocks to the ledger.
pub struct StateManager {
    lifecycle: Lifecycle,
    ledger: AccountLedger,
    mempool: Mempool,
    dag: BlockGraph,
    claims: Vec<Claim>,
}

impl StateManager {
    pub closed spec fn ledger_view(&self) -> LedgerView {
        self.ledger@
    }

    pub closed spec fn mempool_view(&self) -> MempoolView {
        self.mempool@
    }

    pub closed spec fn dag_view(&self) -> GraphView {
        self.dag@
    }

    pub closed spec fn spec_status(&self) -> ActorState {
        self.lifecycle.spec_status()
    }

    pub closed spec fn claims_view(&self) -> Seq<ClaimView> {
        claim_views(self.claims@)
    }

    /// Every claim recorded from applied blocks, each hash once.
    pub fn claim_store_values(&self) -> (r: &Vec<Claim>)
        ensures
            claim_views(r@) == self.claims_view(),
    {
        &self.claims
    }


    pub closed spec fn wf(&self) -> bool {
        self.ledger.wf() && self.mempool.wf() && self.dag.wf()
    }

    pub fn new(id: String, dag: BlockGraph) -> (r: StateManager)
        requires
            dag.wf(),
        ensures
            r.wf(),
            r.dag_view() == dag@,
            r.ledger_view().staged.len() == 0,
            r.ledger_view().published.len() == 0,
            r.mempool_view().staged.len() == 0,
            r.mempool_view().published.len() == 0,
            r.spec_status() == ActorState::Stopped,
            r.spec_id() == id@,
            r.claims_view().len() == 0,
    {
        proof {
            assert(claim_views(Seq::<Claim>::empty()) =~= Seq::<ClaimView>::empty());
        }
        StateManager {
            lifecycle: Lifecycle::new(id),
            ledger: AccountLedger::new(),
            mempool: Mempool::new(),
            dag,
            claims: Vec::new(),
        }
    }

    pub fn status(&self) -> (r: ActorState)
        ensures
            r == self.spec_status(),
    {
        self.lifecycle.status()
    }

    pub closed spec fn spec_id(&self) -> Seq<char> {
        self.lifecycle.spec_id()
    }

    pub fn id(&self) -> (r: String)
        ensures
            r@ == self.spec_id(),
    {
        self.lifecycle.id()
    }

    pub fn set_status(&mut self, status: ActorState)
        requires
            old(self).wf(),
        ensures
            final(self).wf(),
            final(self).spec_status() == status,
            final(self).spec_id() == old(self).spec_id(),
            final(self).ledger_view() == old(self).ledger_view(),
            final(self).mempool_view() == old(self).mempool_view(),
            final(self).dag_view() == old(self).dag_view(),
            final(self).claims_view() == old(self).claims_view(),
    {
        self.lifecycle.set_status(status);
    }

    /// The block graph, for reading.
    pub fn dag(&self) -> (r: &BlockGraph)
        ensures
            r@ == self.dag_view(),
            self.wf() ==> r.wf(),
    {
        &self.dag
    }

    /// Inserts a block into the graph; the ledger and the mempool are not
    /// touched, so a proposal evicts nothing from the mempool.
    pub fn add_block(&mut self, block: Block) -> (r: bool)
        requires
            old(self).wf(),
        ensures
            final(self).wf(),
            final(self).dag_view() == old(self).dag_view().with_vertex(block@),
            r == !old(self).dag_view().contains(block@.hash()),
            final(self).ledger_view() == old(self).ledger_view(),
            final(self).mempool_view() == old(self).mempool_view(),
            final(self).spec_status() == old(self).spec_status(),
            final(self).claims_view() == old(self).claims_view(),
    {
        self.dag.add_vertex(block)
    }

    /// Adds a reference edge to the graph, with the rules of `add_edge`.
    pub fn add_edge(&mut self, ancestor: &String, descendant: &String) -> (r: bool)
        requires
            old(self).wf(),
        ensures
            final(self).wf(),
            final(self).dag_view() == old(self).dag_view().with_edge(ancestor@, descendant@),
            r == old(self).dag_view().accepts_edge(ancestor@, descendant@),
            final(self).ledger_view() == old(self).ledger_view(),
            final(self).mempool_view() == old(self).mempool_view(),
            final(self).spec_status() == old(self).spec_status(),
            final(self).claims_view() == old(self).claims_view(),
    {
        self.dag.add_edge(ancestor, descendant)
    }

    /// Runs the convergence producer over the graph from `frontier`.
    pub fn produce_convergence_block(&mut self, frontier: &String) -> (r: Option<String>)
        requires
            old(self).wf(),
        ensures
            final(self).wf(),
            ({
                let refs = old(self).dag_view().eligible_hashes(frontier@);
                let cb = crate::convergence::convergence_of(refs);
                &&& r is Some <==> refs.len() > 0 && !old(self).dag_view().contains(cb.hash())
                &&& r is Some ==> r->Some_0@ == cb.hash() && final(self).dag_view()
                    == crate::convergence::converged_graph(old(self).dag_view(), refs)
                &&& r is None ==> final(self).dag_view() == old(self).dag_view()
            }),
            r matches Some(h) ==> {
                let fin = final(self).dag_view();
                let refs = old(self).dag_view().eligible_hashes(frontier@);
                &&& fin.contains(h@)
                &&& fin.vertices[fin.position(h@)] == crate::convergence::convergence_of(refs)
                &&& fin.inbound_hashes(h@) == refs
            },
            final(self).ledger_view() == old(self).ledger_view(),
            final(self).mempool_view() == old(self).mempool_view(),
            final(self).spec_status() == old(self).spec_status(),
            final(self).claims_view() == old(self).claims_view(),
    {
        crate::convergence::produce_convergence_block(&mut self.dag, frontier)
    }

    /// Seeds the ledger's staging copy; see `AccountLedger::extend_accounts`.
    pub fn extend_accounts(&mut self, accounts: Vec<crate::ledger::Account>) -> (r: Result<
        (),
        crate::ledger::LedgerError,
    >)
        requires
            old(self).wf(),
        ensures
            final(self).wf(),
            r is Ok <==> crate::ledger::seedable(
                old(self).ledger_view().staged,
                crate::ledger::account_views(accounts@),
            ),
            r is Ok ==> final(self).ledger_view().staged == old(self).ledger_view().staged
                + crate::ledger::account_views(accounts@),
            r is Err ==> final(self).ledger_view().staged == old(self).ledger_view().staged,
            final(self).ledger_view().published == old(self).ledger_view().published,
            final(self).mempool_view() == old(self).mempool_view(),
            final(self).dag_view() == old(self).dag_view(),
            final(self).spec_status() == old(self).spec_status(),
            final(self).claims_view() == old(self).claims_view(),
    {
        self.ledger.extend_accounts(accounts)
    }

    /// Stages a pending transaction in the mempool.
    pub fn insert_txn(&mut self, txn: Txn) -> (r: bool)
        requires
            old(self).wf(),
        ensures
            final(self).wf(),
            r == !crate::mempool::has_digest(old(self).mempool_view().staged, txn@.digest),
            final(self).mempool_view().staged == (if r {
                old(self).mempool_view().staged.push(txn@)
            } else {
                old(self).mempool_view().staged
            }),
            final(self).mempool_view().published == old(self).mempool_view().published,
            final(self).ledger_view() == old(self).ledger_view(),
            final(self).dag_view() == old(self).dag_view(),
            final(self).spec_status() == old(self).spec_status(),
            final(self).claims_view() == old(self).claims_view(),
    {
        self.mempool.insert(txn)
    }

    /// Applies the block `hash` to the ledger's staging copy. A convergence
    /// block applies the transactions of each proposal it references, in
    /// order; each one is applied or rejected on its own, and leaves the
    /// mempool. A genesis block carries nothing to apply. A proposal is not
    /// applied until a convergence block references it.
    pub fn update_state(&mut self, hash: &String) -> (r: Result<ApplyReport, StateError>)
        requires
            old(self).wf(),
        ensures
            final(self).wf(),
            final(self).dag_view() == old(self).dag_view(),
            final(self).spec_status() == old(self).spec_status(),
            final(self).spec_id() == old(self).spec_id(),
            final(self).ledger_view().published == old(self).ledger_view().published,
            final(self).mempool_view().published == old(self).mempool_view().published,
            ({
                let g = old(self).dag_view();
                let txs = block_txns(g, hash@);
                &&& !g.contains(hash@) ==> r == Err::<ApplyReport, StateError>(
                    StateError::BlockNotFound,
                )
                &&& g.contains(hash@) && g.vertices[g.position(hash@)] is Proposal ==> r == Err::<
                    ApplyReport,
                    StateError,
                >(StateError::UnconvergedProposal)
                &&& r is Ok <==> g.contains(hash@) && !(g.vertices[g.position(hash@)] is Proposal)
                &&& r is Ok ==> {
                    &&& r->Ok_0.digests@.map_values(|s: String| s@) == digests_of(txs)
                    &&& r->Ok_0.verdicts@ == verdicts(old(self).ledger_view().staged, txs)
                    &&& final(self).ledger_view().staged == apply_txns(
                        old(self).ledger_view().staged,
                        txs,
                    )
                    &&& final(self).mempool_view().staged == without_digests(
                        old(self).mempool_view().staged,
                        digests_of(txs),
                    )
                    &&& final(self).claims_view() == with_claims(
                        old(self).claims_view(),
                        block_claims(g, hash@),
                    )
                }
                &&& r is Err ==> final(self).ledger_view() == old(self).ledger_view()
                    && final(self).mempool_view() == old(self).mempool_view()
                    && final(self).claims_view() == old(self).claims_view()
            }),
    {
        let ghost g = self.dag@;
        let ghost l0 = self.ledger@.staged;
        let ghost m0 = self.mempool@.staged;
        let ghost lp = self.ledger@.published;
        let ghost mp = self.mempool@.published;
        let ghost st = self.lifecycle.spec_status();
        let ghost id0 = self.lifecycle.spec_id();
        let ghost c0 = self.claims_view();
        let mut digests: Vec<String> = Vec::new();
        let mut verdict_log: Vec<Option<Rejection>> = Vec::new();
        let refs: &Vec<String> = match self.dag.get_vertex(hash) {
            None => return Err(StateError::BlockNotFound),
            Some(Block::Proposal { .. }) => return Err(StateError::UnconvergedProposal),
            Some(Block::Genesis { .. }) => {
                assert(block_claims(g, hash@) =~= Seq::<ClaimView>::empty());
                assert(digests@.map_values(|s: String| s@) =~= seq![]);
                assert(verdict_log@ =~= seq![]);
                return Ok(ApplyReport { digests, verdicts: verdict_log });
            },
            Some(Block::Convergence { refs, .. }) => refs,
        };
        let ghost rv = refs@.map_values(|s: String| s@);
        assert(rv == g.vertices[g.position(hash@)]->Convergence_refs);
        let mut i: usize = 0;
        while i < refs.len()
            invariant
                i <= refs.len(),
                rv == refs@.map_values(|s: String| s@),
                self.wf(),
                self.dag@ == g,
                self.ledger@.published == lp,
                self.mempool@.published == mp,
                self.lifecycle.spec_status() == st,
                self.lifecycle.spec_id() == id0,
                self.ledger@.staged == apply_txns(l0, gathered_txns(g, rv.take(i as int))),
                self.mempool@.staged == without_digests(
                    m0,
                    digests_of(gathered_txns(g, rv.take(i as int))),
                ),
                digests@.map_values(|s: String| s@) == digests_of(
                    gathered_txns(g, rv.take(i as int)),
                ),
                verdict_log@ == verdicts(l0, gathered_txns(g, rv.take(i as int))),
                self.claims_view() == with_claims(c0, gathered_claims(g, rv.take(i as int))),
            decreases refs.len() - i,
        {
            let ghost done = gathered_txns(g, rv.take(i as int));
            let ghost done_claims = gathered_claims(g, rv.take(i as int));
            assert(rv.take(i + 1).drop_last() =~= rv.take(i as int));
            assert(rv.take(i + 1).last() == rv[i as int]);
            match self.dag.get_vertex(&refs[i]) {
                Some(Block::Proposal { txns, claims, .. }) => {
                    let ghost tv = crate::block::txn_views(txns@);
                    assert(proposal_txns(g, rv[i as int]) == tv);
                    let mut j: usize = 0;
                    while j < txns.len()
                        invariant
                            j <= txns.len(),
                            tv == crate::block::txn_views(txns@),
                            self.wf(),
                            self.dag@ == g,
                            self.ledger@.published == lp,
                            self.mempool@.published == mp,
                            self.lifecycle.spec_status() == st,
                self.lifecycle.spec_id() == id0,
                            self.ledger@.staged == apply_txns(l0, done + tv.take(j as int)),
                            self.mempool@.staged == without_digests(
                                m0,
                                digests_of(done + tv.take(j as int)),
                            ),
                            digests@.map_values(|s: String| s@) == digests_of(
                                done + tv.take(j as int),
                            ),
                            verdict_log@ == verdicts(l0, done + tv.take(j as int)),
                            self.claims_view() == with_claims(c0, done_claims),
                        decreases txns.len() - j,
                    {
                        let ghost prefix = done + tv.take(j as int);
                        let ghost next = done + tv.take(j + 1);
                        assert(next =~= prefix.push(tv[j as int]));
                        assert(next.drop_last() =~= prefix);
                        assert(digests_of(next) =~= digests_of(prefix).push(tv[j as int].digest));
                        assert(digests_of(next).drop_last() =~= digests_of(prefix));
                        let t = &txns[j];
                        let v = self.ledger.apply_txn(t);
                        self.mempool.remove(&t.digest);
                        let ghost before = digests@;
                        digests.push(t.digest.clone());
                        assert(digests@.map_values(|s: String| s@) =~= before.map_values(
                            |s: String| s@,
                        ).push(t.digest@));
                        verdict_log.push(v);
                        j = j + 1;
                    }
                    assert(tv.take(txns.len() as int) =~= tv);
                    let ghost cv = claim_views(claims@);
                    assert(proposal_claims(g, rv[i as int]) == cv);
                    let mut k: usize = 0;
                    while k < claims.len()
                        invariant
                            k <= claims.len(),
                            cv == claim_views(claims@),
                            self.wf(),
                            self.dag@ == g,
                            self.ledger@.published == lp,
                            self.mempool@.published == mp,
                            self.lifecycle.spec_status() == st,
                self.lifecycle.spec_id() == id0,
                            self.ledger@.staged == apply_txns(l0, done + tv),
                            self.mempool@.staged == without_digests(m0, digests_of(done + tv)),
                            digests@.map_values(|s: String| s@) == digests_of(done + tv),
                            verdict_log@ == verdicts(l0, done + tv),
                            self.claims_view() == with_claims(c0, done_claims + cv.take(k as int)),
                        decreases claims.len() - k,
                    {
                        let ghost prefix = done_claims + cv.take(k as int);
                        let ghost next = done_claims + cv.take(k + 1);
                        assert(next =~= prefix.push(cv[k as int]));
                        assert(next.drop_last() =~= prefix);
                        record_claim(&mut self.claims, &claims[k]);
                        k = k + 1;
                    }
                    assert(cv.take(claims.len() as int) =~= cv);
                },
                _ => {
                    assert(proposal_txns(g, rv[i as int]) == Seq::<TxnView>::empty());
                    assert(done + Seq::<TxnView>::empty() =~= done);
                    assert(proposal_claims(g, rv[i as int]) == Seq::<ClaimView>::empty());
                    assert(done_claims + Seq::<ClaimView>::empty() =~= done_claims);
                },
            }
            i = i + 1;
        }
        assert(rv.take(refs.len() as int) =~= rv);
        Ok(ApplyReport { digests, verdicts: verdict_log })
    }

    /// Publishes the staged accounts and pending transactions.
    pub fn commit(&mut self)
        requires
            old(self).wf(),
        ensures
            final(self).wf(),
            final(self).ledger_view() == crate::ledger::committed(old(self).ledger_view()),
            final(self).mempool_view().staged == old(self).mempool_view().staged,
            final(self).mempool_view().published == old(self).mempool_view().staged,
            final(self).dag_view() == old(self).dag_view(),
            final(self).spec_status() == old(self).spec_status(),
            final(self).spec_id() == old(self).spec_id(),
            final(self).claims_view() == old(self).claims_view(),
    {
        self.ledger.commit();
        self.mempool.commit();
    }

    /// A handle on the published accounts.
    pub fn read_handle(&self) -> (r: AccountsHandle)
        ensures
            self.wf() ==> crate::ledger::distinct_addresses(r@),
            r@ == crate::ledger::handle_view(self.ledger_view()),
    {
        self.ledger.read_handle()
    }

    /// A handle on the published pending transactions.
    pub fn mempool_handle(&self) -> (r: MempoolHandle)
        ensures
            r@ == self.mempool_view().published,
    {
        self.mempool.read_handle()
    }

    /// Handles one event and returns the next status and the event to
    /// publish, if any. A new transaction is staged and published in the
    /// mempool; a converged block is applied and the result committed; a
    /// stop asks the run loop to terminate.
    pub fn handle(&mut self, event: StateEvent) -> (r: (ActorState, Option<StateOutput>))
        requires
            old(self).wf(),
        ensures
            final(self).wf(),
            state_step(*old(self), event, *final(self), r),
    {
        match event {
            StateEvent::NewTxnCreated(txn) => {
                let digest = txn.digest.clone();
                let added = self.mempool.insert(txn);
                self.mempool.commit();
                if added {
                    (ActorState::Running, Some(StateOutput::TxnAddedToMempool(digest)))
                } else {
                    (ActorState::Running, None)
                }
            },
            StateEvent::BlockConverged(hash) => {
                match self.update_state(&hash) {
                    Ok(_) => {
                        self.commit();
                        (ActorState::Running, Some(StateOutput::StateUpdated(hash)))
                    },
                    Err(e) => (ActorState::Running, Some(StateOutput::BlockNotApplied(hash, e))),
                }
            },
            StateEvent::Stop => (ActorState::Terminating, None),
            StateEvent::NoOp => (ActorState::Running, None),
        }
    }
}

} // verus!
