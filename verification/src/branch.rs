use vstd::prelude::*;
use vstd::arithmetic::power2::{lemma2_to64, lemma_pow2_unfold, pow2};

verus! {

use crate::msg::Operation;

/// The value of one branch after one operation: a credit always applies; a
/// debit applies only where the balance covers the amount and marks the
/// branch infeasible otherwise. An already infeasible branch stays so.
pub open spec fn apply_op(v: Option<i64>, op: Operation) -> Option<i64> {
    match v {
        None => None,
        Some(x) => match op {
            Operation::CreditBalance { amount } => Some((x + amount) as i64),
            Operation::DebitBalance { amount } => if x >= amount {
                Some((x - amount) as i64)
            } else {
                None
            },
        },
    }
}

/// The balance arithmetic of `apply_op` stays within `i64`.
pub open spec fn op_fits(v: Option<i64>, op: Operation) -> bool {
    match v {
        None => true,
        Some(x) => match op {
            Operation::CreditBalance { amount } => i64::MIN <= x + amount <= i64::MAX,
            Operation::DebitBalance { amount } => x < amount || i64::MIN <= x - amount
                <= i64::MAX,
        },
    }
}

pub open spec fn gen_fits(s: Seq<Option<i64>>, op: Operation) -> bool {
    forall|k: int| 0 <= k < s.len() ==> op_fits(#[trigger] s[k], op)
}

/// The operation applied to every branch of a generation, in address order.
pub open spec fn apply_gen(s: Seq<Option<i64>>, op: Operation) -> Seq<Option<i64>> {
    s.map_values(|v| apply_op(v, op))
}

/// The generation that executing `op` produces from `s`: the untouched
/// branches first (the new high address bit is 0, "aborted"), then the
/// branches with the operation applied (high bit 1, "committed"). Every
/// execution exactly doubles the branch count; only finalization prunes.
pub open spec fn next_gen(s: Seq<Option<i64>>, op: Operation) -> Seq<Option<i64>> {
    s + apply_gen(s, op)
}

/// The bit of branch address `j` at position `p`.
pub open spec fn branch_bit(j: nat, p: nat) -> nat {
    (j / pow2(p)) % 2
}

/// The branches of `s` whose address bit at position `p` equals `b`, in
/// address order; the surviving branches are renumbered by position.
pub open spec fn filter_branches(s: Seq<Option<i64>>, p: nat, b: nat) -> Seq<Option<i64>>
    decreases s.len(),
{
    if s.len() == 0 {
        Seq::empty()
    } else if branch_bit((s.len() - 1) as nat, p) == b {
        filter_branches(s.drop_last(), p, b).push(s.last())
    } else {
        filter_branches(s.drop_last(), p, b)
    }
}

/// The bit of branch address `j` at position `p`, executably.
pub fn bit_at(j: usize, p: usize) -> (r: u64)
    requires
        p < 32,
    ensures
        r == branch_bit(j as nat, p as nat),
{
    proof {
        vstd::bits::lemma_usize_shr_is_div(j, p);
        assert(((j >> p) & 1) == (j >> p) % 2) by (bit_vector);
    }
    ((j >> p) & 1) as u64
}

/// Keeps the branches whose address bit at position `p` equals `b`.
pub fn filter_generation(values: &Vec<Option<i64>>, p: usize, b: u64) -> (r: Vec<Option<i64>>)
    requires
        p < 32,
    ensures
        r@ == filter_branches(values@, p as nat, b as nat),
{
    let mut r: Vec<Option<i64>> = Vec::new();
    let n = values.len();
    let mut j: usize = 0;
    while j < n
        invariant
            n == values@.len(),
            j <= n,
            p < 32,
            r@ == filter_branches(values@.take(j as int), p as nat, b as nat),
        decreases n - j,
    {
        if bit_at(j, p) == b {
            r.push(values[j]);
        }
        proof {
            assert(values@.take(j + 1).drop_last() =~= values@.take(j as int));
            assert(values@.take(j + 1).last() == values@[j as int]);
        }
        j += 1;
    }
    proof {
        assert(values@.take(n as int) =~= values@);
    }
    r
}

/// The generations reached by executing a whole sequence of operations,
/// oldest first, with no finalization in between.
pub open spec fn run_ops(s: Seq<Option<i64>>, ops: Seq<Operation>) -> Seq<Option<i64>>
    decreases ops.len(),
{
    if ops.len() == 0 {
        s
    } else {
        run_ops(next_gen(s, ops[0]), ops.drop_first())
    }
}

/// Law: with no finalization, every execution doubles the branch count, so
/// executing `k` operations multiplies the count of live branches by `2^k`.
pub proof fn lemma_branch_count_doubles(s: Seq<Option<i64>>, ops: Seq<Operation>)
    ensures
        run_ops(s, ops).len() == pow2(ops.len()) * s.len(),
    decreases ops.len(),
{
    lemma2_to64();
    if ops.len() == 0 {
        assert(pow2(0) * s.len() == s.len());
    } else {
        let t = next_gen(s, ops[0]);
        assert(t.len() == 2 * s.len());
        lemma_branch_count_doubles(t, ops.drop_first());
        lemma_pow2_unfold(ops.len());
        assert(pow2((ops.len() - 1) as nat) * (2 * s.len()) == (2 * pow2(
            (ops.len() - 1) as nat,
        )) * s.len()) by (nonlinear_arith);
    }
}

/// The count of surviving branches when pruning on the lowest address bit:
/// exactly the odd (or even) half survives.
pub proof fn lemma_filter_low_bit_len(s: Seq<Option<i64>>)
    ensures
        filter_branches(s, 0, 1).len() == s.len() / 2,
    decreases s.len(),
{
    lemma2_to64();
    if s.len() > 0 {
        lemma_filter_low_bit_len(s.drop_last());
    }
}

/// Law: pruning for the oldest pending transaction agrees with compaction.
/// Keeping the branches whose lowest address bit records `committed = true`
/// and renumbering the survivors by position is the same as right-shifting
/// every surviving address by one: the branch at old address `j` (bit 0 set)
/// stands at new address `j / 2`, its value unchanged, for every survivor.
pub proof fn lemma_compaction_round_trip(s: Seq<Option<i64>>, j: int)
    requires
        0 <= j < s.len(),
        branch_bit(j as nat, 0) == 1,
    ensures
        filter_branches(s, 0, 1).len() == s.len() / 2,
        filter_branches(s, 0, 1)[j / 2] == s[j],
    decreases s.len(),
{
    lemma2_to64();
    lemma_filter_low_bit_len(s);
    if j == s.len() - 1 {
        lemma_filter_low_bit_len(s.drop_last());
    } else {
        lemma_compaction_round_trip(s.drop_last(), j);
    }
}

} // verus!
