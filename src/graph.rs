use vstd::prelude::*;

use crate::block::{Block, BlockView};

verus! {

/// The abstract graph: vertices in insertion order, and reference edges as
/// pairs of vertex positions (ancestor, descendant).
pub struct GraphView {
    pub vertices: Seq<BlockView>,
    pub edges: Seq<(int, int)>,
}

/// The position of the vertex whose hash is `hash`, or -1.
pub open spec fn position_of(vertices: Seq<BlockView>, hash: Seq<char>) -> int {
    if exists|i: int| 0 <= i < vertices.len() && #[trigger] vertices[i].hash() == hash {
        choose|i: int| 0 <= i < vertices.len() && #[trigger] vertices[i].hash() == hash
    } else {
        -1
    }
}

/// The ancestors of the vertex at `d`, one for each edge into it, in the
/// order of the edges.
pub open spec fn inbound_of(edges: Seq<(int, int)>, d: int) -> Seq<int>
    decreases edges.len(),
{
    if edges.len() == 0 {
        seq![]
    } else if edges.last().1 == d {
        inbound_of(edges.drop_last(), d).push(edges.last().0)
    } else {
        inbound_of(edges.drop_last(), d)
    }
}

/// A walk of at least one edge along reference edges.
pub open spec fn is_path(g: GraphView, p: Seq<int>) -> bool {
    &&& p.len() >= 2
    &&& forall|k: int| 0 <= k < p.len() - 1 ==> g.edges.contains((p[k], #[trigger] p[k + 1]))
}

impl GraphView {
    /// Hashes are unique; every edge points from an earlier-inserted vertex
    /// to a later one; no edge is stored twice.
    pub open spec fn wf(self) -> bool {
        &&& forall|i: int, j: int|
            0 <= i < self.vertices.len() && 0 <= j < self.vertices.len() && i != j
                ==> #[trigger] self.vertices[i].hash() != #[trigger] self.vertices[j].hash()
        &&& forall|k: int|
            0 <= k < self.edges.len() ==> 0 <= #[trigger] self.edges[k].0 < self.edges[k].1
                < self.vertices.len()
        &&& forall|k: int, l: int|
            0 <= k < self.edges.len() && 0 <= l < self.edges.len() && k != l
                ==> #[trigger] self.edges[k] != #[trigger] self.edges[l]
    }

    pub open spec fn position(self, hash: Seq<char>) -> int {
        position_of(self.vertices, hash)
    }

    pub open spec fn contains(self, hash: Seq<char>) -> bool {
        self.position(hash) >= 0
    }

    /// The graph after `add_vertex(b)`: a block whose hash is new is
    /// appended; otherwise nothing changes.
    pub open spec fn with_vertex(self, b: BlockView) -> GraphView {
        if self.contains(b.hash()) {
            self
        } else {
            GraphView { vertices: self.vertices.push(b), edges: self.edges }
        }
    }

    /// Whether `add_edge(a, d)` stores an edge: both ends are present, the
    /// ancestor was inserted before the descendant, and the edge is new.
    pub open spec fn accepts_edge(self, a: Seq<char>, d: Seq<char>) -> bool {
        &&& self.contains(a)
        &&& self.contains(d)
        &&& self.position(a) < self.position(d)
        &&& !self.edges.contains((self.position(a), self.position(d)))
    }

    pub open spec fn with_edge(self, a: Seq<char>, d: Seq<char>) -> GraphView {
        if self.accepts_edge(a, d) {
            GraphView {
                vertices: self.vertices,
                edges: self.edges.push((self.position(a), self.position(d))),
            }
        } else {
            self
        }
    }

    pub open spec fn with_vertices(self, bs: Seq<BlockView>) -> GraphView
        decreases bs.len(),
    {
        if bs.len() == 0 {
            self
        } else {
            self.with_vertices(bs.drop_last()).with_vertex(bs.last())
        }
    }

    pub open spec fn with_edges(self, es: Seq<(Seq<char>, Seq<char>)>) -> GraphView
        decreases es.len(),
    {
        if es.len() == 0 {
            self
        } else {
            self.with_edges(es.drop_last()).with_edge(es.last().0, es.last().1)
        }
    }

    /// Whether the vertex at `i` has an edge into a convergence block.
    pub open spec fn converged(self, i: int) -> bool {
        exists|k: int|
            0 <= k < self.edges.len() && #[trigger] self.edges[k].0 == i
                && self.vertices[self.edges[k].1] is Convergence
    }

    /// Whether the vertex at `i` is a proposal on `frontier` that no
    /// convergence block references yet.
    pub open spec fn eligible(self, frontier: Seq<char>, i: int) -> bool {
        &&& self.vertices[i] is Proposal
        &&& self.vertices[i]->Proposal_parent == frontier
        &&& !self.converged(i)
    }

    /// The hashes of the eligible proposals among the first `n` vertices, in
    /// insertion order.
    pub open spec fn eligible_upto(self, frontier: Seq<char>, n: int) -> Seq<Seq<char>>
        decreases n,
    {
        if n <= 0 {
            seq![]
        } else if self.eligible(frontier, n - 1) {
            self.eligible_upto(frontier, n - 1).push(self.vertices[n - 1].hash())
        } else {
            self.eligible_upto(frontier, n - 1)
        }
    }

    pub open spec fn eligible_hashes(self, frontier: Seq<char>) -> Seq<Seq<char>> {
        self.eligible_upto(frontier, self.vertices.len() as int)
    }

    /// The hashes of the ancestors of `hash`, one per inbound edge.
    pub open spec fn inbound_hashes(self, hash: Seq<char>) -> Seq<Seq<char>> {
        inbound_of(self.edges, self.position(hash)).map_values(|i: int| self.vertices[i].hash())
    }
}

/// Along any path of a well-formed graph, positions increase.
pub proof fn lemma_path_ascends(g: GraphView, p: Seq<int>, k: int)
    requires
        g.wf(),
        is_path(g, p),
        1 <= k < p.len(),
    ensures
        p[0] < p[k],
    decreases k,
{
    if k > 1 {
        lemma_path_ascends(g, p, k - 1);
    }
    let j = k - 1;
    assert(g.edges.contains((p[j], p[j + 1])));
    let idx = choose|idx: int| 0 <= idx < g.edges.len() && g.edges[idx] == (p[j], p[j + 1]);
    assert(g.edges[idx].0 < g.edges[idx].1);
}

/// A well-formed graph, which every sequence of insertions keeps, has no
/// path from a vertex back to itself.
pub proof fn lemma_acyclic(g: GraphView, p: Seq<int>)
    requires
        g.wf(),
        is_path(g, p),
    ensures
        p[0] != p.last(),
{
    lemma_path_ascends(g, p, p.len() - 1);
}

proof fn lemma_position_valid(vs: Seq<BlockView>, hash: Seq<char>)
    ensures
        position_of(vs, hash) >= 0 ==> position_of(vs, hash) < vs.len() && vs[position_of(
            vs,
            hash,
        )].hash() == hash,
        position_of(vs, hash) < 0 ==> forall|i: int| 0 <= i < vs.len() ==> #[trigger] vs[i].hash() != hash,
{
}

proof fn lemma_with_vertex_wf(g: GraphView, b: BlockView)
    requires
        g.wf(),
    ensures
        g.with_vertex(b).wf(),
{
    lemma_position_valid(g.vertices, b.hash());
    if !g.contains(b.hash()) {
        let h = g.with_vertex(b);
        assert forall|k: int| 0 <= k < h.edges.len() implies 0 <= #[trigger] h.edges[k].0
            < h.edges[k].1 < h.vertices.len() by {
            assert(g.edges[k].0 >= 0);
        }
    }
}

proof fn lemma_with_edge_wf(g: GraphView, a: Seq<char>, d: Seq<char>)
    requires
        g.wf(),
    ensures
        g.with_edge(a, d).wf(),
{
    lemma_position_valid(g.vertices, a);
    lemma_position_valid(g.vertices, d);
    if g.accepts_edge(a, d) {
        let h = g.with_edge(a, d);
        let e = (g.position(a), g.position(d));
        assert forall|k: int, l: int|
            0 <= k < h.edges.len() && 0 <= l < h.edges.len() && k != l implies #[trigger] h.edges[k]
            != #[trigger] h.edges[l] by {
            if k == g.edges.len() as int {
                assert(h.edges[l] == g.edges[l]);
                assert(g.edges.contains(g.edges[l]));
            } else if l == g.edges.len() as int {
                assert(g.edges.contains(g.edges[k]));
            }
        }
        assert forall|k: int| 0 <= k < h.edges.len() implies 0 <= #[trigger] h.edges[k].0
            < h.edges[k].1 < h.vertices.len() by {
            if k < g.edges.len() {
                assert(g.edges[k].0 >= 0);
            }
        }
    }
}

proof fn lemma_with_vertices_wf(g: GraphView, bs: Seq<BlockView>)
    requires
        g.wf(),
    ensures
        g.with_vertices(bs).wf(),
    decreases bs.len(),
{
    if bs.len() > 0 {
        lemma_with_vertices_wf(g, bs.drop_last());
        lemma_with_vertex_wf(g.with_vertices(bs.drop_last()), bs.last());
    }
}

proof fn lemma_with_edges_wf(g: GraphView, es: Seq<(Seq<char>, Seq<char>)>)
    requires
        g.wf(),
    ensures
        g.with_edges(es).wf(),
    decreases es.len(),
{
    if es.len() > 0 {
        lemma_with_edges_wf(g, es.drop_last());
        lemma_with_edge_wf(g.with_edges(es.drop_last()), es.last().0, es.last().1);
    }
}

/// The graph after each batch of `extend_from_edges`, in order: a batch is
/// the blocks to insert and the (ancestor, descendant) hash pairs to link.
pub open spec fn after_batches(
    g: GraphView,
    batches: Seq<(Seq<BlockView>, Seq<(Seq<char>, Seq<char>)>)>,
) -> GraphView
    decreases batches.len(),
{
    if batches.len() == 0 {
        g
    } else {
        after_batches(g, batches.drop_last()).with_vertices(batches.last().0).with_edges(
            batches.last().1,
        )
    }
}

/// Starting from a well-formed graph (the empty one is), any sequence of
/// batch insertions leaves a graph with no path from a vertex back to
/// itself.
pub proof fn lemma_batches_stay_acyclic(
    g: GraphView,
    batches: Seq<(Seq<BlockView>, Seq<(Seq<char>, Seq<char>)>)>,
    p: Seq<int>,
)
    requires
        g.wf(),
        is_path(after_batches(g, batches), p),
    ensures
        after_batches(g, batches).wf(),
        p[0] != p.last(),
{
    lemma_batches_wf(g, batches);
    lemma_acyclic(after_batches(g, batches), p);
}

proof fn lemma_batches_wf(g: GraphView, batches: Seq<(Seq<BlockView>, Seq<(Seq<char>, Seq<char>)>)>)
    requires
        g.wf(),
    ensures
        after_batches(g, batches).wf(),
    decreases batches.len(),
{
    if batches.len() > 0 {
        lemma_batches_wf(g, batches.drop_last());
        let prev = after_batches(g, batches.drop_last());
        lemma_with_vertices_wf(prev, batches.last().0);
        lemma_with_edges_wf(prev.with_vertices(batches.last().0), batches.last().1);
    }
}

pub(crate) proof fn lemma_position_found(vs: Seq<BlockView>, hash: Seq<char>, i: int)
    requires
        0 <= i < vs.len(),
        vs[i].hash() == hash,
        forall|a: int, b: int|
            0 <= a < vs.len() && 0 <= b < vs.len() && a != b ==> #[trigger] vs[a].hash()
                != #[trigger] vs[b].hash(),
    ensures
        position_of(vs, hash) == i,
{
}

/// The block graph: an arena of blocks keyed by content hash, with reference
/// edges between positions of the arena.
pub struct BlockGraph {
    vertices: Vec<Block>,
    edges: Vec<(usize, usize)>,
}

impl View for BlockGraph {
    type V = GraphView;

    closed spec fn view(&self) -> GraphView {
        GraphView {
            vertices: self.vertices@.map_values(|b: Block| b@),
            edges: self.edges@.map_values(|e: (usize, usize)| (e.0 as int, e.1 as int)),
        }
    }
}

impl BlockGraph {
    pub open spec fn wf(&self) -> bool {
        self@.wf()
    }

    pub fn new() -> (r: BlockGraph)
        ensures
            r.wf(),
            r@.vertices.len() == 0,
            r@.edges.len() == 0,
    {
        let r = BlockGraph { vertices: Vec::new(), edges: Vec::new() };
        assert(r@.vertices =~= Seq::<BlockView>::empty());
        assert(r@.edges =~= Seq::<(int, int)>::empty());
        r
    }

    pub fn vertex_count(&self) -> (r: usize)
        ensures
            r == self@.vertices.len(),
    {
        self.vertices.len()
    }

    pub fn edge_count(&self) -> (r: usize)
        ensures
            r == self@.edges.len(),
    {
        self.edges.len()
    }

    fn find(&self, hash: &String) -> (r: Option<usize>)
        requires
            self.wf(),
        ensures
            r is Some <==> self@.contains(hash@),
            r matches Some(i) ==> i as int == self@.position(hash@) && i < self.vertices.len(),
    {
        let mut i: usize = 0;
        while i < self.vertices.len()
            invariant
                i <= self.vertices.len(),
                self.wf(),
                forall|j: int| 0 <= j < i ==> #[trigger] self@.vertices[j].hash() != hash@,
            decreases self.vertices.len() - i,
        {
            assert(self@.vertices[i as int] == self.vertices@[i as int]@);
            if self.vertices[i].hash().eq(hash) {
                proof {
                    lemma_position_found(self@.vertices, hash@, i as int);
                }
                return Some(i);
            }
            i = i + 1;
        }
        assert(!(exists|j: int|
            0 <= j < self@.vertices.len() && #[trigger] self@.vertices[j].hash() == hash@));
        None
    }

    /// Whether a vertex with this hash is present.
    pub fn contains(&self, hash: &String) -> (r: bool)
        requires
            self.wf(),
        ensures
            r == self@.contains(hash@),
    {
        self.find(hash).is_some()
    }

    /// The vertex with this hash, if present.
    pub fn get_vertex(&self, hash: &String) -> (r: Option<&Block>)
        requires
            self.wf(),
        ensures
            r is Some <==> self@.contains(hash@),
            r matches Some(b) ==> b@ == self@.vertices[self@.position(hash@)],
    {
        match self.find(hash) {
            Some(i) => Some(&self.vertices[i]),
            None => None,
        }
    }

    /// Inserts a block unless a vertex with its hash is already present.
    /// Returns whether it was inserted.
    pub fn add_vertex(&mut self, block: Block) -> (r: bool)
        requires
            old(self).wf(),
        ensures
            final(self).wf(),
            final(self)@ == old(self)@.with_vertex(block@),
            r == !old(self)@.contains(block@.hash()),
    {
        if self.find(block.hash()).is_some() {
            return false;
        }
        let ghost g0 = self@;
        self.vertices.push(block);
        assert(self@.vertices =~= g0.vertices.push(block@));
        assert(self@.edges =~= g0.edges);
        true
    }

    fn has_edge(&self, a: usize, d: usize) -> (r: bool)
        ensures
            r == self@.edges.contains((a as int, d as int)),
    {
        let mut k: usize = 0;
        while k < self.edges.len()
            invariant
                k <= self.edges.len(),
                forall|j: int| 0 <= j < k ==> #[trigger] self@.edges[j] != (a as int, d as int),
            decreases self.edges.len() - k,
        {
            let e = self.edges[k];
            if e.0 == a && e.1 == d {
                assert(self@.edges[k as int] == (a as int, d as int));
                return true;
            }
            k = k + 1;
        }
        false
    }

    /// Adds a reference edge from `ancestor` to `descendant`. It is a no-op
    /// when either end is absent, when the descendant was inserted before the
    /// ancestor, or when the edge is already stored. Returns whether it was
    /// added.
    pub fn add_edge(&mut self, ancestor: &String, descendant: &String) -> (r: bool)
        requires
            old(self).wf(),
        ensures
            final(self).wf(),
            final(self)@ == old(self)@.with_edge(ancestor@, descendant@),
            r == old(self)@.accepts_edge(ancestor@, descendant@),
    {
        let a = match self.find(ancestor) {
            Some(a) => a,
            None => return false,
        };
        let d = match self.find(descendant) {
            Some(d) => d,
            None => return false,
        };
        if a >= d || self.has_edge(a, d) {
            return false;
        }
        let ghost g0 = self@;
        self.edges.push((a, d));
        assert(self@.edges =~= g0.edges.push((a as int, d as int)));
        assert(self@.vertices =~= g0.vertices);
        true
    }

    /// Inserts a batch: first each block of `blocks`, then each edge of
    /// `edges` (ancestor hash, descendant hash), each with the rules of
    /// `add_vertex` and `add_edge`.
    pub fn extend_from_edges(&mut self, blocks: Vec<Block>, edges: &Vec<(String, String)>)
        requires
            old(self).wf(),
        ensures
            final(self).wf(),
            final(self)@ == old(self)@.with_vertices(blocks@.map_values(|b: Block| b@))
                .with_edges(edges@.map_values(|e: (String, String)| (e.0@, e.1@))),
    {
        let ghost g0 = self@;
        let ghost bs = blocks@.map_values(|b: Block| b@);
        let ghost es = edges@.map_values(|e: (String, String)| (e.0@, e.1@));
        let mut blocks = blocks;
        let mut n: usize = 0;
        let total = blocks.len();
        while blocks.len() > 0
            invariant
                self.wf(),
                n <= total,
                total == bs.len(),
                blocks@.len() == total - n,
                forall|j: int| 0 <= j < blocks@.len() ==> #[trigger] blocks@[j]@ == bs[n + j],
                self@ == g0.with_vertices(bs.take(n as int)),
            decreases blocks@.len(),
        {
            let b = blocks.remove(0);
            assert(b@ == bs[n as int]);
            self.add_vertex(b);
            assert(bs.take(n + 1).drop_last() =~= bs.take(n as int));
            n = n + 1;
        }
        assert(bs.take(total as int) =~= bs);
        let ghost g1 = self@;
        let mut k: usize = 0;
        while k < edges.len()
            invariant
                self.wf(),
                k <= edges.len(),
                es == edges@.map_values(|e: (String, String)| (e.0@, e.1@)),
                self@ == g1.with_edges(es.take(k as int)),
            decreases edges.len() - k,
        {
            self.add_edge(&edges[k].0, &edges[k].1);
            assert(es.take(k + 1).drop_last() =~= es.take(k as int));
            k = k + 1;
        }
        assert(es.take(edges.len() as int) =~= es);
    }

    fn converged(&self, i: usize) -> (r: bool)
        requires
            self.wf(),
            i < self.vertices.len(),
        ensures
            r == self@.converged(i as int),
    {
        let mut k: usize = 0;
        while k < self.edges.len()
            invariant
                self.wf(),
                k <= self.edges.len(),
                forall|j: int|
                    0 <= j < k ==> !(#[trigger] self@.edges[j].0 == i as int
                        && self@.vertices[self@.edges[j].1] is Convergence),
            decreases self.edges.len() - k,
        {
            let e = self.edges[k];
            assert(self@.edges[k as int] == (e.0 as int, e.1 as int));
            assert(self@.vertices[e.1 as int] == self.vertices@[e.1 as int]@);
            if e.0 == i {
                if let Block::Convergence { .. } = &self.vertices[e.1] {
                    return true;
                }
            }
            k = k + 1;
        }
        false
    }

    /// The hashes of the proposals on `frontier` that no convergence block
    /// references yet, in insertion order.
    pub fn eligible_proposals(&self, frontier: &String) -> (r: Vec<String>)
        requires
            self.wf(),
        ensures
            r@.map_values(|s: String| s@) == self@.eligible_hashes(frontier@),
    {
        let mut out: Vec<String> = Vec::new();
        let mut i: usize = 0;
        while i < self.vertices.len()
            invariant
                self.wf(),
                i <= self.vertices.len(),
                out@.map_values(|s: String| s@) =~= self@.eligible_upto(frontier@, i as int),
            decreases self.vertices.len() - i,
        {
            assert(self@.vertices[i as int] == self.vertices@[i as int]@);
            let c = self.converged(i);
            if let Block::Proposal { hash, parent, .. } = &self.vertices[i] {
                if parent.eq(frontier) && !c {
                    let ghost before = out@;
                    out.push(hash.clone());
                    assert(out@.map_values(|s: String| s@) =~= before.map_values(|s: String| s@).push(hash@));
                }
            }
            i = i + 1;
        }
        out
    }

    /// The hashes of the ancestors of `hash`, one for each edge into it, in
    /// the order in which the edges were added.
    pub fn inbound_hashes(&self, hash: &String) -> (r: Vec<String>)
        requires
            self.wf(),
        ensures
            r@.map_values(|s: String| s@) == self@.inbound_hashes(hash@),
    {
        let mut out: Vec<String> = Vec::new();
        let d = match self.find(hash) {
            Some(d) => d,
            None => {
                proof {
                    assert forall|k: int| 0 <= k < self@.edges.len() implies #[trigger] self@.edges[k].1 != -1 by {
                        assert(self@.edges[k].0 >= 0);
                    }
                    lemma_no_inbound(self@.edges, -1);
                }
                assert(out@.map_values(|s: String| s@) =~= self@.inbound_hashes(hash@));
                return out;
            },
        };
        let mut k: usize = 0;
        while k < self.edges.len()
            invariant
                self.wf(),
                k <= self.edges.len(),
                d as int == self@.position(hash@),
                d < self.vertices.len(),
                out@.map_values(|s: String| s@) == inbound_of(self@.edges.take(k as int), d as int)
                    .map_values(|i: int| self@.vertices[i].hash()),
            decreases self.edges.len() - k,
        {
            let e = self.edges[k];
            assert(self@.edges[k as int] == (e.0 as int, e.1 as int));
            let ghost prev = out@.map_values(|s: String| s@);
            assert(self@.edges.take(k + 1).drop_last() =~= self@.edges.take(k as int));
            if e.1 == d {
                let h = self.vertices[e.0].hash().clone();
                out.push(h);
                assert(out@.map_values(|s: String| s@) =~= prev.push(h@));
                assert(inbound_of(self@.edges.take(k + 1), d as int).map_values(
                    |i: int| self@.vertices[i].hash(),
                ) =~= prev.push(self@.vertices[e.0 as int].hash()));
            } else {
                assert(inbound_of(self@.edges.take(k + 1), d as int) == inbound_of(
                    self@.edges.take(k as int),
                    d as int,
                ));
            }
            k = k + 1;
        }
        assert(self@.edges.take(self.edges.len() as int) =~= self@.edges);
        out
    }
}

pub(crate) proof fn lemma_no_inbound(edges: Seq<(int, int)>, d: int)
    requires
        forall|k: int| 0 <= k < edges.len() ==> #[trigger] edges[k].1 != d,
    ensures
        inbound_of(edges, d) == Seq::<int>::empty(),
    decreases edges.len(),
{
    if edges.len() > 0 {
        lemma_no_inbound(edges.drop_last(), d);
    }
}

} // verus!
