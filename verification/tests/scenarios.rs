use mf1::contract::{execute_tx, finalize_tx, instantiate};
use mf1::error::ContractError;
use mf1::msg::{FcrossTx, InstantiateMsg, Operation, TxInfo, Vote};
use mf1::state::MAX_PENDING_LEN;

fn credit(tx_id: u32, amount: i64) -> FcrossTx {
    FcrossTx {
        tx_id,
        operation: Operation::CreditBalance { amount },
    }
}

fn debit(tx_id: u32, amount: i64) -> FcrossTx {
    FcrossTx {
        tx_id,
        operation: Operation::DebitBalance { amount },
    }
}

#[test]
fn genesis_state() {
    let st = instantiate(&InstantiateMsg {
        chain_id: 3,
        original_value: 42,
    });
    assert_eq!(st.chain_id, 3);
    assert_eq!(st.expected_tx_id, 1);
    assert!(st.pending_tx_list.is_empty());
    assert_eq!(st.mf_map, vec![vec![Some(42)]]);
    assert_eq!(st.mf_vote_map, vec![true]);
    assert_eq!(st.my_logs, "start:");
}

#[test]
fn credit_doubles_branches() {
    // genesis value 100; credit 50 as tx 1 gives two branches: address 0
    // keeps 100 (abort assumption), address 1 carries 150 (commit assumption)
    let mut st = instantiate(&InstantiateMsg {
        chain_id: 7,
        original_value: 100,
    });
    let out = execute_tx(&mut st, &credit(1, 50)).unwrap();
    assert_eq!(out.executed_tx, 1);
    assert_eq!(st.mf_map[1], vec![Some(100), Some(150)]);
    assert_eq!(st.pending_tx_list, vec![1]);
    assert_eq!(st.expected_tx_id, 2);
    // a credit is feasible on every branch, so the outcome is definite at
    // once and a success vote goes out immediately
    assert_eq!(
        out.vote,
        Some(Vote {
            tx_id: 1,
            chain_id: 7,
            success: true
        })
    );
    assert!(st.mf_vote_map[1]);
}

#[test]
fn infeasible_debit_votes_failure() {
    // continuing from a credit of 50: a debit of 200 is infeasible on both
    // branches (100 < 200 and 150 < 200), so every committed branch dies and
    // a failure vote for tx 2 goes out immediately
    let mut st = instantiate(&InstantiateMsg {
        chain_id: 7,
        original_value: 100,
    });
    execute_tx(&mut st, &credit(1, 50)).unwrap();
    let out = execute_tx(&mut st, &debit(2, 200)).unwrap();
    assert_eq!(st.mf_map[2], vec![Some(100), Some(150), None, None]);
    assert_eq!(
        out.vote,
        Some(Vote {
            tx_id: 2,
            chain_id: 7,
            success: false
        })
    );
    assert_eq!(st.pending_tx_list, vec![1, 2]);
}

#[test]
fn mixed_debit_stays_uncertain() {
    // a debit of 120 is feasible only on the branch that saw the credit:
    // the committed half is mixed, so no vote goes out yet
    let mut st = instantiate(&InstantiateMsg {
        chain_id: 7,
        original_value: 100,
    });
    execute_tx(&mut st, &credit(1, 50)).unwrap();
    let out = execute_tx(&mut st, &debit(2, 120)).unwrap();
    assert_eq!(st.mf_map[2], vec![Some(100), Some(150), None, Some(30)]);
    assert_eq!(out.vote, None);
    assert!(!st.mf_vote_map[2]);
}

#[test]
fn finalize_oldest_compacts() {
    // finalizing tx 1 as committed prunes every generation from id 1 on:
    // generation 1 keeps only its committed branch, generation 2 is pruned
    // on the running bit offset; position 0 means the pruning itself
    // renumbers the surviving addresses
    let mut st = instantiate(&InstantiateMsg {
        chain_id: 7,
        original_value: 100,
    });
    execute_tx(&mut st, &credit(1, 50)).unwrap();
    execute_tx(&mut st, &debit(2, 200)).unwrap();
    let out = finalize_tx(&mut st, &TxInfo {
        tx_id: 1,
        committed: true,
    })
    .unwrap();
    assert_eq!(out.finalized_tx, 1);
    assert!(out.committed);
    assert_eq!(st.mf_map[1], vec![Some(150)]);
    assert_eq!(st.mf_map[2], vec![None, None]);
    assert_eq!(st.pending_tx_list, vec![2]);
    // both ids voted at execution time already, so nothing is re-sent
    assert!(out.newly_voted.is_empty());
}

#[test]
fn finalize_after_compaction_leaves_one_branch() {
    // after compaction, finalizing tx 2 as aborted discards the branch that
    // assumed it committed, leaving exactly one branch
    let mut st = instantiate(&InstantiateMsg {
        chain_id: 7,
        original_value: 100,
    });
    execute_tx(&mut st, &credit(1, 50)).unwrap();
    execute_tx(&mut st, &debit(2, 200)).unwrap();
    finalize_tx(&mut st, &TxInfo {
        tx_id: 1,
        committed: true,
    })
    .unwrap();
    let out = finalize_tx(&mut st, &TxInfo {
        tx_id: 2,
        committed: false,
    })
    .unwrap();
    assert_eq!(st.mf_map[2], vec![None]);
    assert!(st.pending_tx_list.is_empty());
    assert!(out.newly_voted.is_empty());
}

#[test]
fn pruning_later_generation_unlocks_deferred_vote() {
    // a mixed debit leaves tx 2 uncertain. Finalizing tx 1 as aborted prunes
    // generation 1 on bit 0 and generation 2 on the running offset, bit 1;
    // the surviving half of generation 2 is uniform, so the deferred vote
    // for tx 2 goes out now and its record is set
    let mut st = instantiate(&InstantiateMsg {
        chain_id: 9,
        original_value: 100,
    });
    execute_tx(&mut st, &credit(1, 50)).unwrap();
    execute_tx(&mut st, &debit(2, 120)).unwrap();
    assert_eq!(st.mf_map[2], vec![Some(100), Some(150), None, Some(30)]);
    assert!(!st.mf_vote_map[2]);
    let out = finalize_tx(&mut st, &TxInfo {
        tx_id: 1,
        committed: false,
    })
    .unwrap();
    assert_eq!(st.mf_map[1], vec![Some(100)]);
    assert_eq!(st.mf_map[2], vec![Some(100), Some(150)]);
    assert_eq!(
        out.newly_voted,
        vec![Vote {
            tx_id: 2,
            chain_id: 9,
            success: true
        }]
    );
    assert!(st.mf_vote_map[2]);
}

#[test]
fn own_finalization_resolves_remaining_ambiguity() {
    // the mixed debit stays uncertain while tx 1 finalizes as committed
    // (its pruned half is still mixed); finalizing tx 2 itself as committed
    // then leaves the single feasible branch, and the deferred success vote
    // for tx 2 goes out with that very call
    let mut st = instantiate(&InstantiateMsg {
        chain_id: 9,
        original_value: 100,
    });
    execute_tx(&mut st, &credit(1, 50)).unwrap();
    execute_tx(&mut st, &debit(2, 120)).unwrap();
    let out1 = finalize_tx(&mut st, &TxInfo {
        tx_id: 1,
        committed: true,
    })
    .unwrap();
    assert_eq!(st.mf_map[2], vec![None, Some(30)]);
    assert!(out1.newly_voted.is_empty());
    assert!(!st.mf_vote_map[2]);
    let out2 = finalize_tx(&mut st, &TxInfo {
        tx_id: 2,
        committed: true,
    })
    .unwrap();
    assert_eq!(st.mf_map[2], vec![Some(30)]);
    assert_eq!(
        out2.newly_voted,
        vec![Vote {
            tx_id: 2,
            chain_id: 9,
            success: true
        }]
    );
    assert!(st.mf_vote_map[2]);
}

#[test]
fn three_executions_give_eight_branches() {
    // with no finalization, every execution doubles the branch count:
    // starting from 1 branch, after 3 executions there are 8
    let mut st = instantiate(&InstantiateMsg {
        chain_id: 1,
        original_value: 10,
    });
    execute_tx(&mut st, &credit(1, 1)).unwrap();
    execute_tx(&mut st, &credit(2, 2)).unwrap();
    execute_tx(&mut st, &credit(3, 4)).unwrap();
    assert_eq!(st.mf_map[1].len(), 2);
    assert_eq!(st.mf_map[2].len(), 4);
    assert_eq!(st.mf_map[3].len(), 8);
    assert_eq!(
        st.mf_map[3],
        vec![
            Some(10),
            Some(11),
            Some(12),
            Some(13),
            Some(14),
            Some(15),
            Some(16),
            Some(17)
        ]
    );
}

#[test]
fn pending_window_upper_bound() {
    // the pending window holds at most MAX_PENDING_LEN transactions; the
    // next admission fails with UpperBound and mutates nothing
    let mut st = instantiate(&InstantiateMsg {
        chain_id: 1,
        original_value: 0,
    });
    for id in 1..=MAX_PENDING_LEN {
        execute_tx(&mut st, &credit(id, 1)).unwrap();
    }
    let before = st.clone();
    let err = execute_tx(&mut st, &credit(MAX_PENDING_LEN + 1, 1)).unwrap_err();
    assert_eq!(
        err,
        ContractError::UpperBound {
            max_length: MAX_PENDING_LEN
        }
    );
    assert_eq!(st, before);
    assert_eq!(st.expected_tx_id, MAX_PENDING_LEN + 1);
    assert_eq!(st.pending_tx_list.len(), MAX_PENDING_LEN as usize);
}

#[test]
fn window_reopens_after_oldest_finalizes() {
    // finalizing the oldest pending id shrinks the window, so admission
    // works again afterwards
    let mut st = instantiate(&InstantiateMsg {
        chain_id: 1,
        original_value: 0,
    });
    for id in 1..=MAX_PENDING_LEN {
        execute_tx(&mut st, &credit(id, 1)).unwrap();
    }
    assert!(execute_tx(&mut st, &credit(MAX_PENDING_LEN + 1, 1)).is_err());
    finalize_tx(&mut st, &TxInfo {
        tx_id: 1,
        committed: true,
    })
    .unwrap();
    assert!(execute_tx(&mut st, &credit(MAX_PENDING_LEN + 1, 1)).is_ok());
}
