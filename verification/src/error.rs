use vstd::prelude::*;

verus! {

/// Failures that the core engine itself can produce. Storage, authorization
/// and payment failures belong to the hosting boundary and never originate
/// here.
#[derive(Debug, Clone, PartialEq, Eq)]
pub enum ContractError {
    /// `execute_tx` was called with an id other than the sequentially next one.
    MismatchedExecutionTxId { sent_id: u32, expected_id: u32 },
    /// `finalize_tx` was called with an id that is not currently pending; the
    /// full pending list is surfaced to aid the caller's diagnosis.
    MismatchedFinalizationTxId { sent_id: u32, expected_id: Vec<u32> },
    /// Admitting the transaction would let the pending window exceed its
    /// fixed maximum length.
    UpperBound { max_length: u32 },
}

} // verus!
