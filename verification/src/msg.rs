use vstd::prelude::*;

verus! {

/// Creates the genesis state: the identity of the chain this instance serves
/// and the starting balance of the single genesis branch.
#[derive(Debug, Clone, Copy, PartialEq, Eq)]
pub struct InstantiateMsg {
    pub chain_id: u16,
    pub original_value: i64,
}

/// The two state-mutating requests the engine serves.
#[derive(Debug, Clone, Copy, PartialEq, Eq)]
pub enum ExecuteMsg {
    ExecuteTx { fcross_tx: FcrossTx },
    FinalizeTx { tx_info: TxInfo },
}

/// A cross-chain transaction to execute optimistically.
#[derive(Debug, Clone, Copy, PartialEq, Eq)]
pub struct FcrossTx {
    pub tx_id: u32,
    pub operation: Operation,
}

/// A balance mutation. A credit always succeeds; a debit is infeasible on a
/// branch whose balance is smaller than the debited amount.
#[derive(Debug, Clone, Copy, PartialEq, Eq)]
pub enum Operation {
    CreditBalance { amount: i64 },
    DebitBalance { amount: i64 },
}

/// The finalization verdict for one pending transaction: did the remote chain
/// commit it or abort it?
#[derive(Debug, Clone, Copy, PartialEq, Eq)]
pub struct TxInfo {
    pub tx_id: u32,
    pub committed: bool,
}

/// Read-only requests.
#[derive(Debug, Clone, Copy, PartialEq, Eq)]
pub enum QueryMsg {
    Greet {},
    AllFutures {},
    PendingListLength {},
}

#[derive(Debug, Clone, PartialEq, Eq)]
pub struct GreetResp {
    pub message: String,
}

#[derive(Debug, Clone, Copy, PartialEq, Eq)]
pub struct PendingListLengthResp {
    pub len: u32,
}

/// Every live branch, as a (bit-string address, rendered value) pair.
#[derive(Debug, Clone, PartialEq, Eq)]
pub struct AllFuturesResp {
    pub futures: Vec<(String, String)>,
}

/// The payload of one outbound vote message: reports the resolved outcome of
/// a transaction to the remote peer. The boundary layer wraps it in the wire
/// envelope and dispatches it; the engine only decides what to send.
#[derive(Debug, Clone, Copy, PartialEq, Eq)]
pub struct Vote {
    pub tx_id: u32,
    pub chain_id: u16,
    pub success: bool,
}

/// What one successful execution reports back: the executed id and the vote
/// to dispatch, if the outcome was already definite.
#[derive(Debug, Clone, Copy, PartialEq, Eq)]
pub struct ExecuteOutcome {
    pub executed_tx: u32,
    pub vote: Option<Vote>,
}

/// What one successful finalization reports back: the finalized id, the
/// verdict that was applied, and the deferred votes that this finalization
/// unlocked, in increasing id order.
#[derive(Debug, Clone, PartialEq, Eq)]
pub struct FinalizeOutcome {
    pub finalized_tx: u32,
    pub committed: bool,
    pub newly_voted: Vec<Vote>,
}

} // verus!
