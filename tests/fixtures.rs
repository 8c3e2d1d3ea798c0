use vrrb_node_core::block::{Block, Claim, Txn};
use vrrb_node_core::fixtures::{
    create_mock_transaction_args, create_txn_from_accounts, generate_nodes_pattern, produce_accounts, produce_genesis_block, produce_proposal_blocks,
    produce_random_txs, RING_AMOUNT, SEED_CREDITS,
};
use vrrb_node_core::graph::BlockGraph;
use vrrb_node_core::router::NodeType;
use vrrb_node_core::state_manager::StateManager;

fn addresses() -> Vec<String> {
    (0..5).map(|i| format!("addr-{i}")).collect()
}

#[test]
fn txn_digest_hashes_its_fields() {
    let t = Txn::create("a".into(), "b".into(), 10_000, 1, 0);
    assert_eq!(t.digest, sha256::digest("Ta|b|10000|1|0|"));
    let later = Txn::create("a".into(), "b".into(), 10_000, 1, 1);
    assert_ne!(t.digest, later.digest);
}

#[test]
fn ring_transfers_pay_the_next_account() {
    let accounts = produce_accounts(addresses());
    assert_eq!(accounts.len(), 5);
    assert!(accounts.iter().all(|a| a.credits() == SEED_CREDITS && a.nonce() == 0));
    let txs = produce_random_txs(&accounts, 3);
    assert_eq!(txs.len(), 5);
    for (i, t) in txs.iter().enumerate() {
        assert_eq!(&t.sender, accounts[i].address());
        assert_eq!(&t.receiver, accounts[(i + 1) % 5].address());
        assert_eq!(t.amount, RING_AMOUNT);
        assert_eq!(t.nonce, 1);
    }
    let single = create_txn_from_accounts(&accounts[0], &"x".to_string(), 3);
    assert_eq!(single.digest, sha256::digest("Taddr-0|x|10000|1|3|"));
}

#[test]
fn genesis_fixture_is_stable() {
    let g = produce_genesis_block();
    assert_eq!(g.hash(), &sha256::digest("Ggenesis|"));
    assert!(matches!(g, Block::Genesis { .. }));
}

#[test]
fn vrrbdb_should_update_with_new_block() {
    let accounts = produce_accounts(addresses());
    let mut sm = StateManager::new("state".into(), BlockGraph::new());
    let seed = produce_accounts(addresses());
    assert!(sm.extend_accounts(seed).is_ok());
    let genesis = produce_genesis_block();
    let gh = genesis.hash().clone();
    sm.add_block(genesis);
    let claims = vec![Claim::new("n".into(), "a".into(), "s".into())];
    let proposals = produce_proposal_blocks(&gh, &accounts, 5, &claims);
    assert_eq!(proposals.len(), 5);
    for p in proposals {
        let ph = p.hash().clone();
        sm.add_block(p);
        sm.add_edge(&gh, &ph);
    }
    let block_hash = sm.produce_convergence_block(&gh).unwrap();
    assert_eq!(sm.dag().inbound_hashes(&block_hash).len(), 5);
    sm.update_state(&block_hash).unwrap();
    sm.commit();
    let handle = sm.read_handle();
    for address in addresses() {
        let account = handle.get(&address).unwrap();
        assert!(account.sent().len() > 0);
        assert!(account.received().len() > 0);
        assert!(account.staked().len() == 0);
    }
    assert_eq!(sm.claim_store_values().len(), 1);
}

#[test]
fn mock_transaction_moves_the_square() {
    let t = create_mock_transaction_args(7, "s".into(), "r".into());
    assert_eq!(t.amount, 49);
    assert_eq!(t.nonce, 7);
    assert_eq!(t.digest, sha256::digest("Ts|r|49|7|0|"));
    let big = create_mock_transaction_args(u64::MAX, "s".into(), "r".into());
    assert_eq!(big.amount, (u64::MAX as u128) * (u64::MAX as u128));
}

#[test]
fn nodes_pattern_has_a_quarter_validators_and_half_miners() {
    let pattern = generate_nodes_pattern(10);
    assert_eq!(pattern.len(), 7);
    assert_eq!(pattern.iter().filter(|t| **t == NodeType::Validator).count(), 2);
    assert_eq!(pattern.iter().filter(|t| **t == NodeType::Miner).count(), 5);
    assert!(generate_nodes_pattern(0).is_empty());
}
