use vrrb_node_core::actor::ActorState;
use vrrb_node_core::block::{Block, Claim, Txn};
use vrrb_node_core::graph::BlockGraph;
use vrrb_node_core::ledger::{Account, Rejection};
use vrrb_node_core::state_manager::{StateError, StateEvent, StateManager, StateOutput};

const ADDRESSES: [&str; 5] = ["a0", "a1", "a2", "a3", "a4"];

fn ring_txns(round: usize) -> Vec<Txn> {
    (0..5)
        .map(|i| {
            Txn::new(
                format!("p{round}-t{i}"),
                ADDRESSES[i].to_string(),
                ADDRESSES[(i + 1) % 5].to_string(),
                100u128.pow(2),
                1,
            )
        })
        .collect()
}

fn seeded_manager() -> (StateManager, String) {
    let mut sm = StateManager::new("state".to_string(), BlockGraph::new());
    let accounts = ADDRESSES
        .iter()
        .map(|a| Account::new(a.to_string(), 1_000_000_000_000_000_000_000_000_000u128))
        .collect();
    assert!(sm.extend_accounts(accounts).is_ok());
    let genesis = Block::genesis(&"net".to_string());
    let gh = genesis.hash().clone();
    sm.add_block(genesis);
    (sm, gh)
}

fn add_proposal(sm: &mut StateManager, parent: &String, round: usize) -> String {
    let claim = Claim::new(format!("n{round}"), format!("addr{round}"), format!("s{round}"));
    let p = Block::proposal(parent.clone(), ring_txns(round), vec![claim]);
    let ph = p.hash().clone();
    sm.add_block(p);
    sm.add_edge(parent, &ph);
    ph
}

#[test]
fn converged_block_fills_sent_and_received_digests() {
    let (mut sm, gh) = seeded_manager();
    for round in 0..5 {
        add_proposal(&mut sm, &gh, round);
    }
    let c = sm.produce_convergence_block(&gh).unwrap();
    let report = sm.update_state(&c).unwrap();
    assert_eq!(report.digests.len(), 25);
    // The first proposal's transactions carry each sender's next nonce; the
    // later ones reuse it and are rejected as stale.
    assert!(report.verdicts[..5].iter().all(|v| v.is_none()));
    assert!(report.verdicts[5..].iter().all(|v| *v == Some(Rejection::StaleNonce)));
    sm.commit();
    let handle = sm.read_handle();
    let store = handle.state_store_values();
    let mut total = 0u128;
    for address in ADDRESSES.iter() {
        let account = handle.get(&address.to_string()).unwrap();
        assert!(!account.sent().is_empty());
        assert!(!account.received().is_empty());
        assert!(account.staked().is_empty());
        assert_eq!(account.nonce(), 1);
        total += account.credits();
    }
    assert_eq!(store.len(), 5);
    assert_eq!(total, 5_000_000_000_000_000_000_000_000_000u128);
    let claims = sm.claim_store_values();
    assert_eq!(claims.len(), 5);
    assert!(claims.iter().all(|c| c.hash.len() == 64));
    // Applying the same block again records no claim twice.
    sm.update_state(&c).unwrap();
    assert_eq!(sm.claim_store_values().len(), 5);
}

#[test]
fn pending_txn_stays_until_its_convergence_is_applied() {
    let (mut sm, gh) = seeded_manager();
    let pending = ring_txns(0);
    for t in pending.iter() {
        let copy = Txn::new(t.digest.clone(), t.sender.clone(), t.receiver.clone(), t.amount, t.nonce);
        assert!(sm.insert_txn(copy));
    }
    let extra = Txn::new("other".into(), "a0".into(), "a1".into(), 1, 9);
    assert!(sm.insert_txn(extra));
    let ph = add_proposal(&mut sm, &gh, 0);
    sm.commit();
    assert_eq!(sm.mempool_handle().transaction_store_values().len(), 6);
    assert_eq!(sm.update_state(&ph).err(), Some(StateError::UnconvergedProposal));
    assert_eq!(sm.mempool_handle().transaction_store_values().len(), 6);
    let c = sm.produce_convergence_block(&gh).unwrap();
    sm.update_state(&c).unwrap();
    sm.commit();
    let left = sm.mempool_handle();
    let left = left.transaction_store_values();
    assert_eq!(left.len(), 1);
    assert_eq!(left[0].digest, "other");
}

#[test]
fn update_state_reports_missing_and_genesis_blocks() {
    let (mut sm, gh) = seeded_manager();
    assert_eq!(sm.update_state(&"nowhere".to_string()).err(), Some(StateError::BlockNotFound));
    let report = sm.update_state(&gh).unwrap();
    assert!(report.digests.is_empty());
    assert!(report.verdicts.is_empty());
}

#[test]
fn handle_stages_transactions_and_stops() {
    let (mut sm, gh) = seeded_manager();
    assert_eq!(sm.status(), ActorState::Stopped);
    let t = Txn::new("t".into(), "a0".into(), "a1".into(), 5, 1);
    match sm.handle(StateEvent::NewTxnCreated(t)) {
        (ActorState::Running, Some(StateOutput::TxnAddedToMempool(d))) => assert_eq!(d, "t"),
        _ => panic!("transaction not staged"),
    }
    assert_eq!(sm.mempool_handle().transaction_store_values().len(), 1);
    add_proposal(&mut sm, &gh, 0);
    let c = sm.produce_convergence_block(&gh).unwrap();
    match sm.handle(StateEvent::BlockConverged(c.clone())) {
        (ActorState::Running, Some(StateOutput::StateUpdated(h))) => assert_eq!(h, c),
        _ => panic!("block not applied"),
    }
    assert_eq!(sm.read_handle().get(&"a0".to_string()).unwrap().nonce(), 1);
    match sm.handle(StateEvent::BlockConverged("nowhere".into())) {
        (ActorState::Running, Some(StateOutput::BlockNotApplied(_, e))) => {
            assert_eq!(e, StateError::BlockNotFound)
        },
        _ => panic!("missing block applied"),
    }
    assert!(matches!(sm.handle(StateEvent::NoOp), (ActorState::Running, None)));
    assert!(matches!(sm.handle(StateEvent::Stop), (ActorState::Terminating, None)));
}
