use vstd::prelude::*;

use crate::ledger::LedgerError;
use crate::state_manager::StateError;

verus! {

/// The node's unified error: every component error converts into it, so one
/// handler at the node boundary can decide what to do.
pub enum NodeError {
    InvalidNodeType(String),
    Io(String),
    AddrParse(String),
    Storage(String),
    Broadcast(String),
    TryRecv(String),
    MpscSend(String),
    Theater(String),
    Event(String),
    BroadcastRecv(String),
    Core(String),
    State(StateError),
    Ledger(LedgerError),
    Other(String),
}

impl From<StateError> for NodeError {
    fn from(e: StateError) -> (r: NodeError)
        ensures
            r == NodeError::State(e),
    {
        NodeError::State(e)
    }
}

impl vstd::std_specs::convert::FromSpecImpl<StateError> for NodeError {
    open spec fn obeys_from_spec() -> bool {
        true
    }

    open spec fn from_spec(e: StateError) -> NodeError {
        NodeError::State(e)
    }
}

impl From<LedgerError> for NodeError {
    fn from(e: LedgerError) -> (r: NodeError)
        ensures
            r == NodeError::Ledger(e),
    {
        NodeError::Ledger(e)
    }
}

impl vstd::std_specs::convert::FromSpecImpl<LedgerError> for NodeError {
    open spec fn obeys_from_spec() -> bool {
        true
    }

    open spec fn from_spec(e: LedgerError) -> NodeError {
        NodeError::Ledger(e)
    }
}

} // verus!
