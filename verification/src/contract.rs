use vstd::prelude::*;

verus! {

use crate::branch::{
    apply_gen, apply_op, filter_branches, filter_generation, gen_fits, next_gen, op_fits,
};
use crate::error::ContractError;
use crate::msg::{ExecuteOutcome, FcrossTx, FinalizeOutcome, InstantiateMsg, Operation, TxInfo, Vote};
use crate::state::{
    lemma_increasing_list_len, pending_in_range, pending_span, pending_strictly_increasing,
    ContractState, MAX_PENDING_LEN,
};
use crate::utils::{future_value_chars, render_future_value};

/// How a generation's branch values classify: all feasible, all infeasible,
/// or still mixed.
#[derive(Debug, Clone, Copy, PartialEq, Eq)]
pub enum ExecutionStatus {
    Success,
    Failure,
    Uncertainty,
}

pub open spec fn has_some_value(s: Seq<Option<i64>>) -> bool {
    exists|k: int| 0 <= k < s.len() && (#[trigger] s[k]) is Some
}

pub open spec fn has_none_value(s: Seq<Option<i64>>) -> bool {
    exists|k: int| 0 <= k < s.len() && (#[trigger] s[k]) is None
}

/// The classification of a generation: `Success` when every branch is
/// feasible, `Failure` when none is, `Uncertainty` when they are mixed.
pub open spec fn status_of(s: Seq<Option<i64>>) -> ExecutionStatus {
    if has_some_value(s) && !has_none_value(s) {
        ExecutionStatus::Success
    } else if has_none_value(s) && !has_some_value(s) {
        ExecutionStatus::Failure
    } else {
        ExecutionStatus::Uncertainty
    }
}

proof fn lemma_has_value_push(t: Seq<Option<i64>>, x: Option<i64>)
    ensures
        has_some_value(t.push(x)) == (has_some_value(t) || x is Some),
        has_none_value(t.push(x)) == (has_none_value(t) || x is None),
{
    let u = t.push(x);
    assert(u[t.len() as int] == x);
    assert(forall|k: int| 0 <= k < t.len() ==> u[k] == #[trigger] t[k]);
    if has_some_value(u) {
        let k = choose|k: int| 0 <= k < u.len() && (#[trigger] u[k]) is Some;
        if k < t.len() {
            assert(t[k] is Some);
        }
    }
    if has_none_value(u) {
        let k = choose|k: int| 0 <= k < u.len() && (#[trigger] u[k]) is None;
        if k < t.len() {
            assert(t[k] is None);
        }
    }
    if has_some_value(t) {
        let k = choose|k: int| 0 <= k < t.len() && (#[trigger] t[k]) is Some;
        assert(u[k] is Some);
    }
    if has_none_value(t) {
        let k = choose|k: int| 0 <= k < t.len() && (#[trigger] t[k]) is None;
        assert(u[k] is None);
    }
}

/// Law: classifying the same generation twice without mutation yields the
/// same status; the status is a function of the branch values alone.
pub proof fn lemma_classification_idempotent(s: Seq<Option<i64>>)
    ensures
        status_of(s) == status_of(s),
{
}

/// Classifies a generation's branch values. The caller never hands in an
/// empty generation.
pub fn check_execution_stautus(values: &Vec<Option<i64>>) -> (r: ExecutionStatus)
    requires
        values@.len() > 0,
    ensures
        r == status_of(values@),
{
    let n = values.len();
    let mut has_some = false;
    let mut has_none = false;
    let mut k: usize = 0;
    while k < n
        invariant
            n == values@.len(),
            k <= n,
            has_some == has_some_value(values@.take(k as int)),
            has_none == has_none_value(values@.take(k as int)),
        decreases n - k,
    {
        proof {
            assert(values@.take(k + 1).drop_last() =~= values@.take(k as int));
            assert(values@.take(k + 1) =~= values@.take(k as int).push(values@[k as int]));
            lemma_has_value_push(values@.take(k as int), values@[k as int]);
        }
        match values[k] {
            Option::Some(_) => {
                has_some = true;
            },
            Option::None => {
                has_none = true;
            },
        }
        k += 1;
    }
    proof {
        assert(values@.take(n as int) =~= values@);
    }
    if has_some && !has_none {
        ExecutionStatus::Success
    } else if has_none && !has_some {
        ExecutionStatus::Failure
    } else {
        ExecutionStatus::Uncertainty
    }
}

/// Builds the vote payload that reports a definite outcome to the peer. The
/// caller settles the `Uncertainty` case before coming here.
pub fn give_vote(tx_id: u32, chain_id: u16, status: ExecutionStatus) -> (v: Vote)
    requires
        !(status is Uncertainty),
    ensures
        v == (Vote { tx_id, chain_id, success: status is Success }),
{
    let success = match status {
        ExecutionStatus::Success => true,
        ExecutionStatus::Failure => false,
        ExecutionStatus::Uncertainty => false,
    };
    Vote { tx_id, chain_id, success }
}

/// The genesis state: a single branch holding the starting balance, nothing
/// pending, the first transaction id to expect being 1. The genesis
/// generation counts as already voted so that it is never reported.
pub fn instantiate(msg: &InstantiateMsg) -> (s: ContractState)
    ensures
        s.wf(),
        s.chain_id == msg.chain_id,
        s.expected_tx_id == 1,
        s.pending_tx_list@.len() == 0,
        s.mf_map@.len() == 1,
        s.mf_map@[0]@ == seq![Option::Some(msg.original_value)],
        s.mf_vote_map@ == seq![true],
        s.my_logs@ == "start:"@,
{
    let mut genesis: Vec<Option<i64>> = Vec::new();
    genesis.push(Some(msg.original_value));
    let mut mf_map: Vec<Vec<Option<i64>>> = Vec::new();
    mf_map.push(genesis);
    let mut mf_vote_map: Vec<bool> = Vec::new();
    mf_vote_map.push(true);
    let s = ContractState {
        chain_id: msg.chain_id,
        pending_tx_list: Vec::new(),
        expected_tx_id: 1,
        mf_map,
        mf_vote_map,
        my_logs: "start:".to_owned(),
    };
    proof {
        assert(s.mf_map@[0]@ =~= seq![Option::Some(msg.original_value)]);
        assert(s.mf_vote_map@ =~= seq![true]);
    }
    s
}

/// `execute_tx` admits a transaction when it carries the sequentially next
/// id and the pending window is not yet full.
pub open spec fn exec_admissible(s: ContractState, tx_id: u32) -> bool {
    tx_id == s.expected_tx_id && pending_span(s) < MAX_PENDING_LEN
}

/// Executes the sequentially next transaction against every live branch of
/// the newest generation. The new generation keeps every untouched prior
/// value (new high address bit 0: "aborted") followed by every applied value
/// (high bit 1: "committed"); nothing is pruned at execution time. The
/// committed half alone decides whether the outcome is already definite, and
/// a definite outcome is voted at once and recorded so it is never re-sent.
pub fn execute_tx(state: &mut ContractState, tx: &FcrossTx) -> (r: Result<
    ExecuteOutcome,
    ContractError,
>)
    requires
        old(state).wf(),
        exec_admissible(*old(state), tx.tx_id) ==> (old(state).expected_tx_id < u32::MAX
            && old(state).mf_map@.last()@.len() > 0 && gen_fits(
            old(state).mf_map@.last()@,
            tx.operation,
        )),
    ensures
        final(state).wf(),
        final(state).chain_id == old(state).chain_id,
        final(state).my_logs@ == old(state).my_logs@,
        match r {
            Result::Err(e) => {
                &&& *final(state) == *old(state)
                &&& !exec_admissible(*old(state), tx.tx_id)
                &&& e == (if tx.tx_id != old(state).expected_tx_id {
                    ContractError::MismatchedExecutionTxId {
                        sent_id: tx.tx_id,
                        expected_id: old(state).expected_tx_id,
                    }
                } else {
                    ContractError::UpperBound { max_length: MAX_PENDING_LEN }
                })
            },
            Result::Ok(out) => {
                let prior = old(state).mf_map@.last()@;
                let status = status_of(apply_gen(prior, tx.operation));
                &&& exec_admissible(*old(state), tx.tx_id)
                &&& final(state).expected_tx_id == old(state).expected_tx_id + 1
                &&& final(state).pending_tx_list@ == old(state).pending_tx_list@.push(
                    old(state).expected_tx_id,
                )
                &&& final(state).mf_map@.len() == old(state).mf_map@.len() + 1
                &&& forall|i: int|
                    0 <= i < old(state).mf_map@.len() ==> final(state).mf_map@[i] == old(
                        state,
                    ).mf_map@[i]
                &&& final(state).mf_map@.last()@ == next_gen(prior, tx.operation)
                &&& final(state).mf_vote_map@ == old(state).mf_vote_map@.push(
                    !(status is Uncertainty),
                )
                &&& out.executed_tx == tx.tx_id
                &&& out.vote == (if status is Uncertainty {
                    Option::<Vote>::None
                } else {
                    Option::Some(
                        Vote {
                            tx_id: tx.tx_id,
                            chain_id: old(state).chain_id,
                            success: status is Success,
                        },
                    )
                })
            },
        },
{
    let expected = state.expected_tx_id;
    if tx.tx_id != expected {
        return Result::Err(
            ContractError::MismatchedExecutionTxId { sent_id: tx.tx_id, expected_id: expected },
        );
    }
    let span: u32 = if state.pending_tx_list.len() == 0 {
        0
    } else {
        expected - state.pending_tx_list[0]
    };
    if span >= MAX_PENDING_LEN {
        return Result::Err(ContractError::UpperBound { max_length: MAX_PENDING_LEN });
    }
    let idx: usize = (expected - 1) as usize;
    let n = state.mf_map[idx].len();
    proof {
        assert(state.mf_map@[idx as int] == old(state).mf_map@.last());
    }
    // the committed half: the operation applied to every prior branch
    let mut applied: Vec<Option<i64>> = Vec::new();
    let mut k: usize = 0;
    while k < n
        invariant
            *state == *old(state),
            old(state).wf(),
            exec_admissible(*old(state), tx.tx_id),
            gen_fits(old(state).mf_map@.last()@, tx.operation),
            idx == old(state).expected_tx_id - 1,
            n == old(state).mf_map@.last()@.len(),
            k <= n,
            applied@.len() == k,
            forall|i: int|
                0 <= i < k ==> applied@[i] == apply_op(
                    old(state).mf_map@.last()@[i],
                    tx.operation,
                ),
        decreases n - k,
    {
        let v = state.mf_map[idx][k];
        proof {
            assert(v == old(state).mf_map@.last()@[k as int]);
            assert(op_fits(old(state).mf_map@.last()@[k as int], tx.operation));
        }
        let w = match tx.operation {
            Operation::CreditBalance { amount } => match v {
                Option::None => Option::None,
                Option::Some(x) => Option::Some(x + amount),
            },
            Operation::DebitBalance { amount } => match v {
                Option::None => Option::None,
                Option::Some(x) => if x >= amount {
                    Option::Some(x - amount)
                } else {
                    Option::None
                },
            },
        };
        applied.push(w);
        k += 1;
    }
    proof {
        assert(applied@ =~= apply_gen(old(state).mf_map@.last()@, tx.operation));
    }
    // a definite outcome of the committed half is voted at once
    let status = check_execution_stautus(&applied);
    let vote: Option<Vote> = match status {
        ExecutionStatus::Uncertainty => Option::None,
        _ => Option::Some(give_vote(tx.tx_id, state.chain_id, status)),
    };
    let voted: bool = match status {
        ExecutionStatus::Uncertainty => false,
        _ => true,
    };
    let ghost applied_view = applied@;
    // assemble the stored generation: untouched branches, then applied ones
    let mut gen: Vec<Option<i64>> = Vec::new();
    let mut k2: usize = 0;
    while k2 < n
        invariant
            *state == *old(state),
            idx == old(state).expected_tx_id - 1,
            old(state).wf(),
            n == old(state).mf_map@.last()@.len(),
            k2 <= n,
            gen@.len() == k2,
            forall|i: int| 0 <= i < k2 ==> gen@[i] == old(state).mf_map@.last()@[i],
        decreases n - k2,
    {
        gen.push(state.mf_map[idx][k2]);
        k2 += 1;
    }
    gen.append(&mut applied);
    proof {
        assert(gen@ =~= next_gen(old(state).mf_map@.last()@, tx.operation));
    }
    state.mf_map.push(gen);
    state.mf_vote_map.push(voted);
    state.expected_tx_id = expected + 1;
    state.pending_tx_list.push(expected);
    proof {
        let p = old(state).pending_tx_list@;
        let q = state.pending_tx_list@;
        assert(q =~= p.push(expected));
        assert(state.mf_vote_map@ =~= old(state).mf_vote_map@.push(voted));
        assert forall|a: int, c: int| 0 <= a < c < q.len() implies q[a] < q[c] by {
            if c == q.len() - 1 {
                assert(1 <= p[a] && p[a] < expected);
            }
        }
        assert(pending_in_range(q, state.expected_tx_id));
        assert(pending_span(*state) <= MAX_PENDING_LEN);
        assert(state.wf());
    }
    Result::Ok(ExecuteOutcome { executed_tx: tx.tx_id, vote })
}

/// The index of `id` in the pending list. Meaningful only where the list
/// contains `id`; a strictly increasing list makes the index unique.
pub open spec fn position_of(p: Seq<u32>, id: u32) -> int {
    choose|k: int| 0 <= k < p.len() && p[k] == id
}

pub proof fn lemma_position_unique(p: Seq<u32>, id: u32, k: int)
    requires
        pending_strictly_increasing(p),
        0 <= k < p.len(),
        p[k] == id,
    ensures
        position_of(p, id) == k,
{
    let k2 = position_of(p, id);
    assert(0 <= k2 < p.len() && p[k2] == id);
    if k2 < k {
        assert(p[k2] < p[k]);
    }
    if k2 > k {
        assert(p[k] < p[k2]);
    }
}

/// The pruned form of generation `i` when the transaction at pending
/// position `pos`, carrying id `tx`, is finalized with verdict bit `b`: the
/// branches whose bit at the running offset `pos + (i - tx)` disagrees with
/// the verdict are discarded.
pub open spec fn pruned_gen(m: Seq<Vec<Option<i64>>>, i: int, tx: int, pos: int, b: nat) -> Seq<
    Option<i64>,
> {
    filter_branches(m[i]@, (pos + i - tx) as nat, b)
}

/// Whether pruning generation `i` makes its outcome definite while its vote
/// record is still unset: exactly then a deferred vote is owed.
pub open spec fn newly_decisive(
    m: Seq<Vec<Option<i64>>>,
    vm: Seq<bool>,
    i: int,
    tx: int,
    pos: int,
    b: nat,
) -> bool {
    let g = pruned_gen(m, i, tx, pos, b);
    !vm[i] && g.len() > 0 && !(status_of(g) is Uncertainty)
}

pub open spec fn vote_here(
    m: Seq<Vec<Option<i64>>>,
    vm: Seq<bool>,
    chain_id: u16,
    i: int,
    tx: int,
    pos: int,
    b: nat,
) -> Seq<Vote> {
    if newly_decisive(m, vm, i, tx, pos, b) {
        seq![
            Vote {
                tx_id: i as u32,
                chain_id,
                success: status_of(pruned_gen(m, i, tx, pos, b)) is Success,
            },
        ]
    } else {
        Seq::empty()
    }
}

/// Every deferred vote that finalizing `tx` (at pending position `pos`, with
/// verdict bit `b`) unlocks among the generations with id in `[tx, upto)`,
/// in increasing id order.
pub open spec fn deferred_votes(
    m: Seq<Vec<Option<i64>>>,
    vm: Seq<bool>,
    chain_id: u16,
    tx: int,
    pos: int,
    b: nat,
    upto: int,
) -> Seq<Vote>
    decreases upto - tx,
{
    if upto <= tx {
        Seq::empty()
    } else {
        deferred_votes(m, vm, chain_id, tx, pos, b, upto - 1) + vote_here(
            m,
            vm,
            chain_id,
            upto - 1,
            tx,
            pos,
            b,
        )
    }
}

/// The branch value vector of one generation, rendered for a query
/// response. `None` when no generation with that id exists (yet).
pub fn multifuture(state: &ContractState, tx_id: u32) -> (r: Option<Vec<String>>)
    requires
        state.wf(),
    ensures
        match r {
            Option::None => tx_id >= state.expected_tx_id,
            Option::Some(v) => {
                &&& tx_id < state.expected_tx_id
                &&& v@.len() == state.mf_map@[tx_id as int]@.len()
                &&& forall|j: int|
                    0 <= j < v@.len() ==> (#[trigger] v@[j])@ == future_value_chars(
                        state.mf_map@[tx_id as int]@[j],
                    )
            },
        },
{
    if tx_id >= state.expected_tx_id {
        return Option::None;
    }
    let g = &state.mf_map[tx_id as usize];
    let mut out: Vec<String> = Vec::new();
    let mut j: usize = 0;
    while j < g.len()
        invariant
            g@ == state.mf_map@[tx_id as int]@,
            tx_id < state.expected_tx_id,
            state.mf_map@.len() == state.expected_tx_id,
            j <= g@.len(),
            out@.len() == j,
            forall|q: int| 0 <= q < j ==> (#[trigger] out@[q])@ == future_value_chars(g@[q]),
        decreases g@.len() - j,
    {
        let val = g[j];
        out.push(render_future_value(&val));
        j += 1;
    }
    Option::Some(out)
}

fn copy_ids(v: &Vec<u32>) -> (r: Vec<u32>)
    ensures
        r@ == v@,
{
    let mut r: Vec<u32> = Vec::new();
    let mut k: usize = 0;
    while k < v.len()
        invariant
            k <= v@.len(),
            r@ == v@.take(k as int),
        decreases v@.len() - k,
    {
        r.push(v[k]);
        proof {
            assert(v@.take(k + 1) =~= v@.take(k as int).push(v@[k as int]));
        }
        k += 1;
    }
    proof {
        assert(v@.take(v@.len() as int) =~= v@);
    }
    r
}

/// Applies the finalization verdict for a pending transaction. Every
/// generation from the finalized id up to the newest is pruned on the
/// verdict bit at its running offset; a pruned generation whose outcome
/// thereby becomes definite, and whose vote record is still unset, has its
/// deferred vote emitted and recorded. The id then leaves the pending list;
/// for the oldest pending id the pruning itself compacts the branch
/// addresses, since an address is nothing but a position.
pub fn finalize_tx(state: &mut ContractState, tx_info: &TxInfo) -> (r: Result<
    FinalizeOutcome,
    ContractError,
>)
    requires
        old(state).wf(),
    ensures
        final(state).wf(),
        final(state).chain_id == old(state).chain_id,
        final(state).expected_tx_id == old(state).expected_tx_id,
        final(state).my_logs@ == old(state).my_logs@,
        match r {
            Result::Err(e) => {
                &&& *final(state) == *old(state)
                &&& !old(state).pending_tx_list@.contains(tx_info.tx_id)
                &&& e matches ContractError::MismatchedFinalizationTxId { sent_id, expected_id }
                    && sent_id == tx_info.tx_id && expected_id@ == old(state).pending_tx_list@
            },
            Result::Ok(out) => {
                let p = old(state).pending_tx_list@;
                let pos = position_of(p, tx_info.tx_id);
                let tx = tx_info.tx_id as int;
                let upto = old(state).expected_tx_id as int;
                let b: nat = if tx_info.committed {
                    1
                } else {
                    0
                };
                let m = old(state).mf_map@;
                let vm = old(state).mf_vote_map@;
                &&& p.contains(tx_info.tx_id)
                &&& final(state).pending_tx_list@ == p.remove(pos)
                &&& final(state).mf_map@.len() == m.len()
                &&& final(state).mf_vote_map@.len() == vm.len()
                &&& forall|i: int| 0 <= i < tx ==> final(state).mf_map@[i] == m[i]
                &&& forall|i: int| 0 <= i < tx ==> final(state).mf_vote_map@[i] == vm[i]
                &&& forall|i: int|
                    tx <= i < upto ==> (#[trigger] final(state).mf_map@[i])@ == pruned_gen(
                        m,
                        i,
                        tx,
                        pos,
                        b,
                    )
                &&& forall|i: int|
                    tx <= i < upto ==> #[trigger] final(state).mf_vote_map@[i] == (vm[i]
                        || newly_decisive(m, vm, i, tx, pos, b))
                &&& out.newly_voted@ == deferred_votes(
                    m,
                    vm,
                    old(state).chain_id,
                    tx,
                    pos,
                    b,
                    upto,
                )
                &&& out.finalized_tx == tx_info.tx_id
                &&& out.committed == tx_info.committed
            },
        },
{
    let plen = state.pending_tx_list.len();
    let mut pos: usize = 0;
    let mut found: bool = false;
    while pos < plen && !found
        invariant
            plen == state.pending_tx_list@.len(),
            pos <= plen,
            *state == *old(state),
            forall|i: int| 0 <= i < pos ==> state.pending_tx_list@[i] != tx_info.tx_id,
            found ==> pos < plen && state.pending_tx_list@[pos as int] == tx_info.tx_id,
        decreases plen - pos + (if found {
            0int
        } else {
            1int
        }),
    {
        if state.pending_tx_list[pos] == tx_info.tx_id {
            found = true;
        } else {
            pos += 1;
        }
    }
    if !found {
        let ids = copy_ids(&state.pending_tx_list);
        proof {
            assert forall|i: int|
                0 <= i < old(state).pending_tx_list@.len() implies old(
                state,
            ).pending_tx_list@[i] != tx_info.tx_id by {}
        }
        return Result::Err(
            ContractError::MismatchedFinalizationTxId {
                sent_id: tx_info.tx_id,
                expected_id: ids,
            },
        );
    }
    proof {
        lemma_position_unique(old(state).pending_tx_list@, tx_info.tx_id, pos as int);
        assert(old(state).pending_tx_list@.contains(tx_info.tx_id));
    }
    let expected = state.expected_tx_id;
    let chain_id = state.chain_id;
    let nbit: u64 = if tx_info.committed {
        1
    } else {
        0
    };
    let ghost m = old(state).mf_map@;
    let ghost vm = old(state).mf_vote_map@;
    let ghost tx = tx_info.tx_id as int;
    let ghost upto = old(state).expected_tx_id as int;
    let ghost b: nat = if tx_info.committed {
        1nat
    } else {
        0nat
    };
    proof {
        // the pending window bounds both the position and the loop span, so
        // the running bit offset stays far below the address width
        let p = old(state).pending_tx_list@;
        assert(forall|k: int| 0 <= k < p.len() ==> p[0] <= #[trigger] p[k] && p[k] < expected);
        lemma_increasing_list_len(p, p[0], expected as int);
        assert(p.len() <= expected - p[0]);
        assert(p[0] <= p[pos as int]);
        assert(pos as int + (upto - tx) <= 2 * MAX_PENDING_LEN);
    }
    let mut msgs: Vec<Vote> = Vec::new();
    let mut shift: usize = pos;
    let mut i: u32 = tx_info.tx_id;
    while i < expected
        invariant
            old(state).wf(),
            tx == tx_info.tx_id as int,
            upto == old(state).expected_tx_id as int,
            b == (if tx_info.committed {
                1nat
            } else {
                0nat
            }),
            nbit as nat == b,
            m == old(state).mf_map@,
            vm == old(state).mf_vote_map@,
            tx <= i as int <= upto,
            expected == old(state).expected_tx_id,
            chain_id == old(state).chain_id,
            shift as int == pos as int + (i as int - tx),
            pos as int + (upto - tx) <= 2 * MAX_PENDING_LEN,
            (pos as int) < old(state).pending_tx_list@.len(),
            old(state).pending_tx_list@[pos as int] == tx_info.tx_id,
            state.chain_id == old(state).chain_id,
            state.expected_tx_id == old(state).expected_tx_id,
            state.my_logs@ == old(state).my_logs@,
            state.pending_tx_list@ == old(state).pending_tx_list@,
            state.mf_map@.len() == m.len(),
            state.mf_vote_map@.len() == vm.len(),
            forall|q: int| 0 <= q < tx ==> state.mf_map@[q] == m[q],
            forall|q: int| 0 <= q < tx ==> state.mf_vote_map@[q] == vm[q],
            forall|q: int| i as int <= q < upto ==> state.mf_map@[q] == m[q],
            forall|q: int| i as int <= q < upto ==> state.mf_vote_map@[q] == vm[q],
            forall|q: int|
                tx <= q < i as int ==> (#[trigger] state.mf_map@[q])@ == pruned_gen(
                    m,
                    q,
                    tx,
                    pos as int,
                    b,
                ),
            forall|q: int|
                tx <= q < i as int ==> #[trigger] state.mf_vote_map@[q] == (vm[q]
                    || newly_decisive(m, vm, q, tx, pos as int, b)),
            msgs@ == deferred_votes(m, vm, chain_id, tx, pos as int, b, i as int),
        decreases expected - i,
    {
        let iu = i as usize;
        let updated = filter_generation(&state.mf_map[iu], shift, nbit);
        proof {
            assert(updated@ == pruned_gen(m, i as int, tx, pos as int, b));
        }
        state.mf_map[iu] = updated;
        // a pruned generation whose outcome just became definite, and which
        // has not voted yet, votes now
        if !state.mf_vote_map[iu] {
            if state.mf_map[iu].len() > 0 {
                let status = check_execution_stautus(&state.mf_map[iu]);
                match status {
                    ExecutionStatus::Uncertainty => {},
                    _ => {
                        msgs.push(give_vote(i, chain_id, status));
                        state.mf_vote_map[iu] = true;
                    },
                }
            }
        }
        proof {
            assert(msgs@ =~= deferred_votes(m, vm, chain_id, tx, pos as int, b, i as int + 1));
        }
        shift += 1;
        i += 1;
    }
    state.pending_tx_list.remove(pos);
    proof {
        let p = old(state).pending_tx_list@;
        let q = state.pending_tx_list@;
        assert(q == p.remove(pos as int));
        assert forall|a: int, c: int| 0 <= a < c < q.len() implies q[a] < q[c] by {
            assert(q[a] == (if a < pos as int {
                p[a]
            } else {
                p[a + 1]
            }));
            assert(q[c] == (if c < pos as int {
                p[c]
            } else {
                p[c + 1]
            }));
        }
        assert(pending_in_range(q, state.expected_tx_id)) by {
            assert forall|k: int| 0 <= k < q.len() implies 1 <= #[trigger] q[k] && q[k]
                < state.expected_tx_id by {
                assert(q[k] == (if k < pos as int {
                    p[k]
                } else {
                    p[k + 1]
                }));
            }
        }
        if q.len() > 0 {
            assert(q[0] == (if 0 < pos as int {
                p[0]
            } else {
                p[1]
            }));
            assert(p[0] <= q[0]);
        }
        assert(state.wf());
    }
    Result::Ok(
        FinalizeOutcome {
            finalized_tx: tx_info.tx_id,
            committed: tx_info.committed,
            newly_voted: msgs,
        },
    )
}

} // verus!
