use vrrb_node_core::error::NodeError;
use vrrb_node_core::ledger::LedgerError;
use vrrb_node_core::message::{into_message, StateBlock};
use vrrb_node_core::mock::{MockStateReader, MockStateStore};
use vrrb_node_core::state_manager::StateError;

#[test]
fn state_block_encodes_as_decimal() {
    assert_eq!(StateBlock(1234).as_bytes(), b"1234".to_vec());
    assert_eq!(StateBlock(0).as_bytes(), b"0".to_vec());
    assert_eq!(StateBlock(u128::MAX).as_bytes(), u128::MAX.to_string().into_bytes());
}

#[test]
fn message_id_is_the_payload_digest() {
    let m = into_message(b"hello".to_vec(), 1);
    assert_eq!(
        m.id,
        b"2cf24dba5fb0a30e26e83b2ac5b9e29e1b161e5c1fa7425e73043362938b9824".to_vec()
    );
    assert_eq!(m.data, b"hello".to_vec());
    assert_eq!(m.return_receipt, 1);
    assert_eq!(m.validated, 0);
    assert!(m.source.is_none() && m.signature.is_none() && m.key.is_none());
}

#[test]
fn component_errors_convert_to_node_error() {
    assert!(matches!(
        NodeError::from(StateError::BlockNotFound),
        NodeError::State(StateError::BlockNotFound)
    ));
    assert!(matches!(
        NodeError::from(LedgerError::AddressTaken),
        NodeError::Ledger(LedgerError::AddressTaken)
    ));
}

#[test]
fn mocks_construct() {
    let store = MockStateStore::new();
    let _reader: MockStateReader = store.state_reader();
    let _other = MockStateReader::new();
}
