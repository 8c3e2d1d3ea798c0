use vstd::prelude::*;

use crate::block::{preimage_of, views_of, Block, BlockView, CONVERGENCE_TAG};
use crate::graph::{inbound_of, lemma_no_inbound, lemma_position_found, BlockGraph, GraphView};
use crate::hashing::sha256_hex;

verus! {

/// The convergence block over `refs`.
pub open spec fn convergence_of(refs: Seq<Seq<char>>) -> BlockView {
    BlockView::Convergence {
        hash: sha256_hex(preimage_of(CONVERGENCE_TAG, refs)),
        refs: refs,
    }
}

/// The edges from each of `refs` to the block `hash`.
pub open spec fn edges_into(refs: Seq<Seq<char>>, hash: Seq<char>) -> Seq<(Seq<char>, Seq<char>)> {
    refs.map_values(|a: Seq<char>| (a, hash))
}

/// The graph once the convergence block over `refs` is inserted with an edge
/// from every one of them.
pub open spec fn converged_graph(g: GraphView, refs: Seq<Seq<char>>) -> GraphView {
    g.with_vertices(seq![convergence_of(refs)]).with_edges(
        edges_into(refs, convergence_of(refs).hash()),
    )
}

proof fn lemma_eligible_positions(g: GraphView, f: Seq<char>, n: int)
    requires
        g.wf(),
        0 <= n <= g.vertices.len(),
    ensures
        forall|j: int|
            0 <= j < g.eligible_upto(f, n).len() ==> 0 <= g.position(
                #[trigger] g.eligible_upto(f, n)[j],
            ) < n && g.vertices[g.position(g.eligible_upto(f, n)[j])].hash() == g.eligible_upto(
                f,
                n,
            )[j],
        forall|j: int, k: int|
            0 <= j < k < g.eligible_upto(f, n).len() ==> g.position(
                #[trigger] g.eligible_upto(f, n)[j],
            ) < g.position(#[trigger] g.eligible_upto(f, n)[k]),
    decreases n,
{
    if n > 0 {
        lemma_eligible_positions(g, f, n - 1);
        let prev = g.eligible_upto(f, n - 1);
        let cur = g.eligible_upto(f, n);
        if g.eligible(f, n - 1) {
            lemma_position_found(g.vertices, g.vertices[n - 1].hash(), n - 1);
            assert(cur == prev.push(g.vertices[n - 1].hash()));
            assert forall|j: int| 0 <= j < prev.len() implies #[trigger] cur[j] == prev[j] by {}
            assert forall|j: int, k: int| 0 <= j < k < cur.len() implies g.position(
                #[trigger] cur[j],
            ) < g.position(#[trigger] cur[k]) by {
                assert(cur[j] == prev[j]);
                if k < prev.len() {
                    assert(cur[k] == prev[k]);
                }
            }
        }
    }
}

proof fn lemma_inbound_append(a: Seq<(int, int)>, b: Seq<(int, int)>, d: int)
    ensures
        inbound_of(a + b, d) == inbound_of(a, d) + inbound_of(b, d),
    decreases b.len(),
{
    if b.len() == 0 {
        assert(a + b =~= a);
        assert(inbound_of(a, d) + inbound_of(b, d) =~= inbound_of(a, d));
    } else {
        lemma_inbound_append(a, b.drop_last(), d);
        assert((a + b).drop_last() =~= a + b.drop_last());
        assert((a + b).last() == b.last());
    }
}

proof fn lemma_inbound_all_into(b: Seq<(int, int)>, d: int)
    requires
        forall|i: int| 0 <= i < b.len() ==> (#[trigger] b[i]).1 == d,
    ensures
        inbound_of(b, d) == b.map_values(|e: (int, int)| e.0),
    decreases b.len(),
{
    if b.len() > 0 {
        lemma_inbound_all_into(b.drop_last(), d);
        assert(b.map_values(|e: (int, int)| e.0) =~= b.drop_last().map_values(
            |e: (int, int)| e.0,
        ).push(b.last().0));
    }
}

/// The edges that `with_edges` stores for the new vertex at `n`: one per
/// reference, after those already present.
proof fn lemma_edges_added(g1: GraphView, refs: Seq<Seq<char>>, h: Seq<char>, n: int, k: int)
    requires
        g1.vertices.len() == n + 1,
        g1.position(h) == n,
        forall|i: int| 0 <= i < g1.edges.len() ==> (#[trigger] g1.edges[i]).1 < n,
        forall|j: int| 0 <= j < refs.len() ==> 0 <= g1.position(#[trigger] refs[j]) < n,
        forall|j: int, l: int|
            0 <= j < l < refs.len() ==> g1.position(#[trigger] refs[j]) < g1.position(
                #[trigger] refs[l],
            ),
        0 <= k <= refs.len(),
    ensures
        g1.with_edges(edges_into(refs, h).take(k)).vertices == g1.vertices,
        g1.with_edges(edges_into(refs, h).take(k)).edges == g1.edges + Seq::new(
            k as nat,
            |j: int| (g1.position(refs[j]), n),
        ),
    decreases k,
{
    let es = edges_into(refs, h).take(k);
    if k == 0 {
        assert(es =~= Seq::<(Seq<char>, Seq<char>)>::empty());
        assert(g1.edges + Seq::new(0, |j: int| (g1.position(refs[j]), n)) =~= g1.edges);
    } else {
        lemma_edges_added(g1, refs, h, n, k - 1);
        assert(es.drop_last() =~= edges_into(refs, h).take(k - 1));
        let gk = g1.with_edges(es.drop_last());
        let added = Seq::new((k - 1) as nat, |j: int| (g1.position(refs[j]), n));
        let pk = g1.position(refs[k - 1]);
        assert(es.last() == (refs[k - 1], h));
        assert(!gk.edges.contains((pk, n))) by {
            if gk.edges.contains((pk, n)) {
                let idx = choose|idx: int| 0 <= idx < gk.edges.len() && gk.edges[idx] == (pk, n);
                if idx < g1.edges.len() {
                    assert(g1.edges[idx].1 < n);
                } else {
                    let j = idx - g1.edges.len();
                    assert(added[j] == (g1.position(refs[j]), n));
                    assert(g1.position(refs[j]) < pk);
                }
            }
        }
        assert(gk.accepts_edge(refs[k - 1], h));
        assert(g1.with_edges(es).edges =~= g1.edges + Seq::new(
            k as nat,
            |j: int| (g1.position(refs[j]), n),
        ));
    }
}

/// Aggregates the proposals on `frontier` that no convergence block
/// references yet into one convergence block, and inserts it with an edge
/// from each of them in one batch. Returns its hash; yields nothing, and
/// leaves the graph as it was, when there is no such proposal or a vertex
/// with that hash is already present.
pub fn produce_convergence_block(dag: &mut BlockGraph, frontier: &String) -> (r: Option<String>)
    requires
        old(dag).wf(),
    ensures
        final(dag).wf(),
        ({
            let refs = old(dag)@.eligible_hashes(frontier@);
            let cb = convergence_of(refs);
            &&& r is Some <==> refs.len() > 0 && !old(dag)@.contains(cb.hash())
            &&& r is Some ==> r->Some_0@ == cb.hash() && final(dag)@ == converged_graph(
                old(dag)@,
                refs,
            )
            &&& r is None ==> final(dag)@ == old(dag)@
        }),
        r matches Some(h) ==> {
            let fin = final(dag)@;
            &&& fin.contains(h@)
            &&& fin.vertices[fin.position(h@)] == convergence_of(old(dag)@.eligible_hashes(frontier@))
            &&& fin.inbound_hashes(h@) == old(dag)@.eligible_hashes(frontier@)
        },
{
    let refs = dag.eligible_proposals(frontier);
    if refs.len() == 0 {
        return None;
    }
    let ghost rv = views_of(refs@);
    let mut edges: Vec<(String, String)> = Vec::new();
    let block = Block::convergence(refs);
    let hash = block.hash().clone();
    if dag.contains(&hash) {
        return None;
    }
    let refs_ref: &Vec<String> = match &block {
        Block::Convergence { refs, .. } => refs,
        _ => {
            assert(false);
            return None;
        },
    };
    let mut i: usize = 0;
    while i < refs_ref.len()
        invariant
            i <= refs_ref.len(),
            views_of(refs_ref@) == rv,
            edges@.map_values(|e: (String, String)| (e.0@, e.1@)) =~= edges_into(rv, hash@).take(
                i as int,
            ),
        decreases refs_ref.len() - i,
    {
        let ghost before = edges@;
        edges.push((refs_ref[i].clone(), hash.clone()));
        assert(edges@.map_values(|e: (String, String)| (e.0@, e.1@)) =~= before.map_values(
            |e: (String, String)| (e.0@, e.1@),
        ).push((rv[i as int], hash@)));
        i = i + 1;
    }
    assert(edges_into(rv, hash@).take(rv.len() as int) =~= edges_into(rv, hash@));
    let mut blocks: Vec<Block> = Vec::new();
    blocks.push(block);
    let ghost g0 = dag@;
    assert(blocks@.map_values(|b: Block| b@) =~= seq![convergence_of(rv)]);
    dag.extend_from_edges(blocks, &edges);
    proof {
        let cb = convergence_of(rv);
        let n = g0.vertices.len() as int;
        assert(seq![cb].drop_last() =~= Seq::<BlockView>::empty());
        let g1 = g0.with_vertex(cb);
        assert(g0.with_vertices(Seq::<BlockView>::empty()) == g0);
        assert(seq![cb].last() == cb);
        assert(g0.with_vertices(seq![cb]) == g1);
        assert(g1.vertices == g0.vertices.push(cb));
        assert forall|a: int, b: int|
            0 <= a < g1.vertices.len() && 0 <= b < g1.vertices.len() && a != b implies #[trigger] g1.vertices[a].hash()
            != #[trigger] g1.vertices[b].hash() by {
            if a == n {
                assert(g0.vertices[b].hash() != hash@);
            } else if b == n {
                assert(g0.vertices[a].hash() != hash@);
            }
        }
        lemma_position_found(g1.vertices, hash@, n);
        lemma_eligible_positions(g0, frontier@, n);
        assert forall|j: int| 0 <= j < rv.len() implies #[trigger] g1.position(rv[j])
            == g0.position(rv[j]) by {
            lemma_position_found(g1.vertices, rv[j], g0.position(rv[j]));
        }
        assert forall|j: int, l: int| 0 <= j < l < rv.len() implies g1.position(#[trigger] rv[j])
            < g1.position(#[trigger] rv[l]) by {
            assert(g1.position(rv[j]) == g0.position(rv[j]));
            assert(g1.position(rv[l]) == g0.position(rv[l]));
        }
        assert forall|j: int| 0 <= j < rv.len() implies 0 <= g1.position(#[trigger] rv[j]) < n by {
            assert(g1.position(rv[j]) == g0.position(rv[j]));
        }
        assert forall|i: int| 0 <= i < g1.edges.len() implies (#[trigger] g1.edges[i]).1 < n by {
            assert(g0.edges[i].0 >= 0);
            assert(g0.edges[i].1 < g0.vertices.len());
        }
        lemma_edges_added(g1, rv, hash@, n, rv.len() as int);
        assert(edges_into(rv, hash@).take(rv.len() as int) =~= edges_into(rv, hash@));
        let added = Seq::new(rv.len(), |j: int| (g1.position(rv[j]), n));
        let fin = dag@;
        assert(fin.edges == g1.edges + added);
        assert(fin.position(hash@) == n);
        lemma_inbound_append(g1.edges, added, n);
        assert forall|i: int| 0 <= i < g1.edges.len() implies (#[trigger] g1.edges[i]).1 != n by {
            assert(g1.edges[i].1 < n);
        }
        lemma_no_inbound(g1.edges, n);
        lemma_inbound_all_into(added, n);
        assert(inbound_of(fin.edges, n) =~= added.map_values(|e: (int, int)| e.0));
        assert forall|j: int| 0 <= j < rv.len() implies #[trigger] fin.vertices[g1.position(rv[j])].hash()
            == rv[j] by {
            assert(g1.position(rv[j]) == g0.position(rv[j]));
        }
        assert(fin.inbound_hashes(hash@) =~= rv);
    }
    Some(hash)
}

} // verus!
