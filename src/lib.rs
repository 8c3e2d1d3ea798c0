//! Consensus and state-settlement core of a ledger node: a block graph,
//! a ledger with staged and published account snapshots, a mempool, the
//! convergence producer, the state manager and the quorum-bootstrap router.

pub mod actor;
pub mod block;
pub mod codec;
pub mod convergence;
pub mod error;
pub mod fixtures;
pub mod graph;
pub mod hashing;
pub mod ledger;
pub mod mempool;
pub mod message;
pub mod mock;
pub mod network_event;
pub mod router;
pub mod runtime;
pub mod state_manager;
