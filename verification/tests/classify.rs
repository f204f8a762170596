use mf1::contract::{check_execution_stautus, execute_tx, give_vote, instantiate, ExecutionStatus};
use mf1::error::ContractError;
use mf1::msg::{FcrossTx, InstantiateMsg, Operation, Vote};

#[test]
fn all_feasible_is_success() {
    let values = vec![Some(1), Some(0), Some(-3)];
    assert_eq!(check_execution_stautus(&values), ExecutionStatus::Success);
}

#[test]
fn all_infeasible_is_failure() {
    let values: Vec<Option<i64>> = vec![None, None];
    assert_eq!(check_execution_stautus(&values), ExecutionStatus::Failure);
}

#[test]
fn mixed_is_uncertainty() {
    let values = vec![Some(5), None, Some(7)];
    assert_eq!(check_execution_stautus(&values), ExecutionStatus::Uncertainty);
}

#[test]
fn classification_is_repeatable() {
    // classifying the same generation twice without mutation yields the
    // same status
    let values = vec![Some(5), None];
    let first = check_execution_stautus(&values);
    let second = check_execution_stautus(&values);
    assert_eq!(first, second);
}

#[test]
fn vote_payload_carries_outcome() {
    assert_eq!(
        give_vote(4, 2, ExecutionStatus::Success),
        Vote {
            tx_id: 4,
            chain_id: 2,
            success: true
        }
    );
    assert_eq!(
        give_vote(9, 8, ExecutionStatus::Failure),
        Vote {
            tx_id: 9,
            chain_id: 8,
            success: false
        }
    );
}

#[test]
fn wrong_execution_id_is_rejected() {
    let mut st = instantiate(&InstantiateMsg {
        chain_id: 1,
        original_value: 5,
    });
    let before = st.clone();
    let err = execute_tx(&mut st, &FcrossTx {
        tx_id: 4,
        operation: Operation::CreditBalance { amount: 1 },
    })
    .unwrap_err();
    assert_eq!(
        err,
        ContractError::MismatchedExecutionTxId {
            sent_id: 4,
            expected_id: 1
        }
    );
    assert_eq!(st, before);
}
