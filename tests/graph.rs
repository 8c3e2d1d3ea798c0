use vrrb_node_core::block::{Block, Claim, Txn};
use vrrb_node_core::convergence::produce_convergence_block;
use vrrb_node_core::graph::BlockGraph;

fn proposal(parent: &str, tag: &str) -> Block {
    let txn = Txn::new(
        format!("txn-{tag}"),
        String::from("alice"),
        String::from("bob"),
        10,
        1,
    );
    let claim = Claim::new(format!("node-{tag}"), format!("addr-{tag}"), format!("sig-{tag}"));
    Block::proposal(parent.to_string(), vec![txn], vec![claim])
}

#[test]
fn add_vertex_ignores_a_repeated_hash() {
    let mut g = BlockGraph::new();
    let genesis = Block::genesis(&String::from("net"));
    let again = Block::genesis(&String::from("net"));
    assert!(g.add_vertex(genesis));
    assert!(!g.add_vertex(again));
    assert_eq!(g.vertex_count(), 1);
}

#[test]
fn content_hash_is_hex_sha256() {
    let a = Block::genesis(&String::from("net"));
    let b = Block::genesis(&String::from("other"));
    assert_eq!(a.hash().len(), 64);
    assert!(a.hash().chars().all(|c| c.is_ascii_hexdigit()));
    assert_ne!(a.hash(), b.hash());
    // "G" then "net" then the separator.
    assert_eq!(a.hash(), &sha256::digest("Gnet|"));
}

#[test]
fn add_edge_is_a_no_op_without_both_ends() {
    let mut g = BlockGraph::new();
    let genesis = Block::genesis(&String::from("net"));
    let gh = genesis.hash().clone();
    g.add_vertex(genesis);
    assert!(!g.add_edge(&gh, &String::from("missing")));
    assert!(!g.add_edge(&String::from("missing"), &gh));
    assert_eq!(g.edge_count(), 0);
}

#[test]
fn add_edge_refuses_an_edge_against_insertion_order() {
    let mut g = BlockGraph::new();
    let genesis = Block::genesis(&String::from("net"));
    let gh = genesis.hash().clone();
    g.add_vertex(genesis);
    let p = proposal(&gh, "a");
    let ph = p.hash().clone();
    g.add_vertex(p);
    assert!(!g.add_edge(&ph, &gh));
    assert!(g.add_edge(&gh, &ph));
    assert!(!g.add_edge(&gh, &ph));
    assert_eq!(g.edge_count(), 1);
    assert_eq!(g.inbound_hashes(&ph), vec![gh]);
}

#[test]
fn extend_from_edges_inserts_vertices_then_edges() {
    let mut g = BlockGraph::new();
    let genesis = Block::genesis(&String::from("net"));
    let gh = genesis.hash().clone();
    let p1 = proposal(&gh, "a");
    let p2 = proposal(&gh, "b");
    let (h1, h2) = (p1.hash().clone(), p2.hash().clone());
    g.extend_from_edges(
        vec![genesis, p1, p2],
        &vec![(gh.clone(), h1.clone()), (gh.clone(), h2.clone()), (h2.clone(), h1.clone())],
    );
    assert_eq!(g.vertex_count(), 3);
    assert_eq!(g.edge_count(), 2);
    assert_eq!(g.inbound_hashes(&h1), vec![gh.clone()]);
    assert_eq!(g.inbound_hashes(&h2), vec![gh]);
}

#[test]
fn convergence_over_five_proposals_has_five_inbound_edges() {
    let mut g = BlockGraph::new();
    let genesis = Block::genesis(&String::from("net"));
    let gh = genesis.hash().clone();
    g.add_vertex(genesis);
    let mut hashes = Vec::new();
    for i in 0..5 {
        let p = proposal(&gh, &i.to_string());
        hashes.push(p.hash().clone());
        g.add_vertex(p);
        g.add_edge(&gh, hashes.last().unwrap());
    }
    let c = produce_convergence_block(&mut g, &gh).expect("five eligible proposals");
    match g.get_vertex(&c) {
        Some(Block::Convergence { refs, .. }) => assert_eq!(refs, &hashes),
        _ => panic!("convergence vertex missing"),
    }
    assert_eq!(g.inbound_hashes(&c), hashes);
    assert_eq!(g.edge_count(), 10);
    // The proposals are now referenced: nothing is left to converge.
    assert_eq!(produce_convergence_block(&mut g, &gh), None);
    assert_eq!(g.vertex_count(), 7);
}

#[test]
fn convergence_without_proposals_yields_nothing() {
    let mut g = BlockGraph::new();
    let genesis = Block::genesis(&String::from("net"));
    let gh = genesis.hash().clone();
    g.add_vertex(genesis);
    assert_eq!(produce_convergence_block(&mut g, &gh), None);
    let other = proposal("elsewhere", "x");
    g.add_vertex(other);
    assert_eq!(produce_convergence_block(&mut g, &gh), None);
    assert_eq!(g.vertex_count(), 2);
}
