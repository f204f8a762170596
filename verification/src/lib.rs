//! An optimistically branching ledger for cross-chain transactions whose
//! commit/abort outcome is not known at execution time.
//!
//! Each still-pending transaction doubles the set of tracked futures: one
//! branch assumes the transaction aborts, one assumes it commits. When a
//! transaction is finalized, the branches that guessed wrong are pruned, and
//! finalizing the oldest pending transaction compacts the remaining branch
//! addresses. A classifier inspects each generation of branches and decides
//! when a definite success/failure vote can be reported to the remote peer.

pub mod branch;
pub mod contract;
pub mod error;
pub mod msg;
pub mod state;
pub mod utils;
