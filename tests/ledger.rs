use vrrb_node_core::block::Txn;
use vrrb_node_core::ledger::{Account, AccountLedger, LedgerError, Rejection};

fn txn(digest: &str, from: &str, to: &str, amount: u128, nonce: u128) -> Txn {
    Txn::new(digest.into(), from.into(), to.into(), amount, nonce)
}

fn seeded() -> AccountLedger {
    let mut l = AccountLedger::new();
    l.extend_accounts(vec![
        Account::new("alice".into(), 100),
        Account::new("bob".into(), 50),
        Account::new("carol".into(), u128::MAX - 5),
    ])
    .unwrap();
    l
}

fn total(l: &AccountLedger) -> u128 {
    ["alice", "bob"]
        .iter()
        .map(|a| l.get_staged(&a.to_string()).unwrap().credits())
        .sum()
}

#[test]
fn transfer_moves_credits_and_logs_digests() {
    let mut l = seeded();
    assert_eq!(l.apply_txn(&txn("t1", "alice", "bob", 30, 1)), None);
    let alice = l.get_staged(&"alice".to_string()).unwrap();
    assert_eq!(alice.credits(), 70);
    assert_eq!(alice.nonce(), 1);
    assert_eq!(alice.sent(), &vec!["t1".to_string()]);
    assert!(alice.received().is_empty());
    let bob = l.get_staged(&"bob".to_string()).unwrap();
    assert_eq!(bob.credits(), 80);
    assert_eq!(bob.received(), &vec!["t1".to_string()]);
    assert!(bob.staked().is_empty());
    assert_eq!(total(&l), 150);
}

#[test]
fn rejected_transactions_change_nothing() {
    let mut l = seeded();
    let cases = [
        (txn("u", "dave", "bob", 1, 1), Rejection::UnknownSender),
        (txn("v", "alice", "dave", 1, 1), Rejection::UnknownReceiver),
        (txn("w", "alice", "bob", 101, 1), Rejection::InsufficientCredits),
        (txn("y", "alice", "bob", 1, 0), Rejection::StaleNonce),
        (txn("z", "alice", "carol", 10, 1), Rejection::CreditOverflow),
    ];
    for (t, why) in cases.iter() {
        assert_eq!(l.apply_txn(t), Some(*why));
    }
    let alice = l.get_staged(&"alice".to_string()).unwrap();
    assert_eq!(alice.credits(), 100);
    assert_eq!(alice.nonce(), 0);
    assert!(alice.sent().is_empty());
    assert_eq!(total(&l), 150);
}

#[test]
fn self_transfer_keeps_the_balance() {
    let mut l = seeded();
    assert_eq!(l.apply_txn(&txn("s", "bob", "bob", 50, 1)), None);
    let bob = l.get_staged(&"bob".to_string()).unwrap();
    assert_eq!(bob.credits(), 50);
    assert_eq!(bob.nonce(), 1);
    assert_eq!(bob.sent().len(), 1);
    assert_eq!(bob.received().len(), 1);
}

#[test]
fn extend_accounts_refuses_taken_or_repeated_addresses() {
    let mut l = seeded();
    assert_eq!(
        l.extend_accounts(vec![Account::new("alice".into(), 1)]),
        Err(LedgerError::AddressTaken)
    );
    assert_eq!(
        l.extend_accounts(vec![Account::new("erin".into(), 1), Account::new("erin".into(), 2)]),
        Err(LedgerError::AddressTaken)
    );
    assert!(l.get_staged(&"erin".to_string()).is_none());
    assert_eq!(l.extend_accounts(vec![Account::new("erin".into(), 1)]), Ok(()));
    assert_eq!(l.get_staged(&"erin".to_string()).unwrap().credits(), 1);
}

#[test]
fn handles_see_one_snapshot_each() {
    let mut l = seeded();
    let before = l.read_handle();
    assert!(before.get(&"alice".to_string()).is_none());
    l.commit();
    let committed = l.read_handle();
    l.apply_txn(&txn("t1", "alice", "bob", 30, 1));
    assert!(before.state_store_values().is_empty());
    assert_eq!(committed.get(&"alice".to_string()).unwrap().credits(), 100);
    l.commit();
    let after = l.read_handle();
    assert_eq!(committed.get(&"alice".to_string()).unwrap().credits(), 100);
    assert_eq!(after.get(&"alice".to_string()).unwrap().credits(), 70);
    assert_eq!(after.state_store_values().len(), 3);
}

#[test]
fn future_nonce_applies_and_older_ones_turn_stale() {
    let mut l = seeded();
    assert_eq!(l.apply_txn(&txn("f", "alice", "bob", 10, 2)), None);
    l.commit();
    let after = l.read_handle();
    let alice = after.get(&"alice".to_string()).unwrap();
    assert_eq!(alice.credits(), 90);
    assert_eq!(alice.nonce(), 2);
    assert_eq!(l.apply_txn(&txn("g", "alice", "bob", 10, 1)), Some(Rejection::StaleNonce));
    assert_eq!(l.apply_txn(&txn("h", "alice", "bob", 10, 2)), Some(Rejection::StaleNonce));
    assert_eq!(l.apply_txn(&txn("i", "alice", "bob", 10, 3)), None);
    assert_eq!(total(&l), 150);
}
