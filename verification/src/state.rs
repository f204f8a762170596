use vstd::prelude::*;

verus! {

/// Hard cap on the width of the pending window: the span from the oldest
/// still-pending transaction id up to (excluding) the next id to assign may
/// never exceed this many transactions.
pub const MAX_PENDING_LEN: u32 = 12;

/// The inter-chain channel used to deliver vote messages. The engine never
/// reads it; the boundary layer addresses outbound messages with it.
#[derive(Debug, Clone, PartialEq, Eq)]
pub struct ChannelInfo {
    pub channel_id: String,
    /// whether the channel is completely set up
    pub finalized: bool,
}

/// The whole persistent state of one engine instance, threaded explicitly
/// through every operation. The hosting boundary loads it before a call and
/// stores it back afterwards, all-or-nothing.
///
/// `mf_map[id]` is the generation produced by executing transaction `id`:
/// one optional balance per still-possible branch, the branch address being
/// the vector position. `mf_map[0]` is the genesis generation. `None` marks
/// an infeasible branch. `mf_vote_map[id]` records whether a definite vote
/// for `id` has already been reported, preventing duplicates.
#[derive(Debug, Clone, PartialEq, Eq)]
pub struct ContractState {
    pub chain_id: u16,
    pub pending_tx_list: Vec<u32>,
    pub expected_tx_id: u32,
    pub mf_map: Vec<Vec<Option<i64>>>,
    pub mf_vote_map: Vec<bool>,
    pub my_logs: String,
}

/// Pending ids are kept in arrival order, which for sequentially assigned
/// ids means strictly increasing value.
pub open spec fn pending_strictly_increasing(p: Seq<u32>) -> bool {
    forall|k: int, l: int| 0 <= k < l < p.len() ==> p[k] < p[l]
}

/// Every pending id was assigned earlier: it lies in `[1, expected)`.
pub open spec fn pending_in_range(p: Seq<u32>, expected: u32) -> bool {
    forall|k: int| 0 <= k < p.len() ==> 1 <= #[trigger] p[k] && p[k] < expected
}

/// The width of the pending window: how many ids lie between the oldest
/// still-pending one and the next to assign. Zero when nothing is pending.
pub open spec fn pending_span(s: ContractState) -> int {
    if s.pending_tx_list@.len() == 0 {
        0
    } else {
        s.expected_tx_id - s.pending_tx_list@[0]
    }
}

impl ContractState {
    /// Well-formedness: ids start at 1; one generation and one vote record
    /// exist for every id assigned so far; the pending list is an increasing
    /// list of assigned ids whose window never exceeds the fixed maximum.
    pub open spec fn wf(self) -> bool {
        &&& self.expected_tx_id >= 1
        &&& self.mf_map@.len() == self.expected_tx_id
        &&& self.mf_vote_map@.len() == self.expected_tx_id
        &&& pending_strictly_increasing(self.pending_tx_list@)
        &&& pending_in_range(self.pending_tx_list@, self.expected_tx_id)
        &&& pending_span(self) <= MAX_PENDING_LEN
    }
}

/// A strictly increasing list of values drawn from `[lo, hi)` cannot hold
/// more than `hi - lo` entries; in particular the pending list is never
/// longer than the pending window is wide.
pub proof fn lemma_increasing_list_len(p: Seq<u32>, lo: u32, hi: int)
    requires
        pending_strictly_increasing(p),
        forall|k: int| 0 <= k < p.len() ==> lo <= #[trigger] p[k] && p[k] < hi,
        lo <= hi,
    ensures
        p.len() <= hi - lo,
    decreases p.len(),
{
    if p.len() > 0 {
        // every earlier entry is below the last one, so the front of the
        // list lives in the narrower range [lo, last)
        let front = p.drop_last();
        assert(forall|k: int| 0 <= k < front.len() ==> lo <= #[trigger] front[k] && front[k] < p.last()) by {
            assert(forall|k: int| 0 <= k < front.len() ==> front[k] == p[k]);
        }
        lemma_increasing_list_len(front, lo, p.last() as int);
    }
}

} // verus!
