use mf1::contract::{execute_tx, finalize_tx, instantiate, multifuture};
use mf1::error::ContractError;
use mf1::msg::{FcrossTx, InstantiateMsg, Operation, TxInfo};
use mf1::utils::{calculate_pending_list_len, future_index_to_string, keys_format, render_future_value};

#[test]
fn future_index_renders_low_bit_first() {
    assert_eq!(future_index_to_string(0), "0");
    assert_eq!(future_index_to_string(1), "1");
    assert_eq!(future_index_to_string(2), "01");
    assert_eq!(future_index_to_string(5), "101");
    assert_eq!(future_index_to_string(6), "011");
    assert_eq!(future_index_to_string(u16::MAX), "1111111111111111");
}

#[test]
fn keys_format_joins_with_commas() {
    assert_eq!(keys_format(&vec![]), "");
    assert_eq!(keys_format(&vec![0]), "0");
    assert_eq!(keys_format(&vec![1, 2, 3]), "1,01,11");
    assert_eq!(keys_format(&vec![10, 0]), "0101,0");
}

#[test]
fn branch_values_render_as_decimal_or_none() {
    assert_eq!(render_future_value(&None), "None");
    assert_eq!(render_future_value(&Some(0)), "0");
    assert_eq!(render_future_value(&Some(150)), "150");
    assert_eq!(render_future_value(&Some(-5)), "-5");
    assert_eq!(render_future_value(&Some(i64::MAX)), "9223372036854775807");
    assert_eq!(render_future_value(&Some(i64::MIN)), "-9223372036854775808");
}

#[test]
fn multifuture_renders_generation() {
    let mut st = instantiate(&InstantiateMsg {
        chain_id: 7,
        original_value: 100,
    });
    execute_tx(&mut st, &FcrossTx {
        tx_id: 1,
        operation: Operation::CreditBalance { amount: 50 },
    })
    .unwrap();
    execute_tx(&mut st, &FcrossTx {
        tx_id: 2,
        operation: Operation::DebitBalance { amount: 200 },
    })
    .unwrap();
    assert_eq!(multifuture(&st, 0).unwrap(), vec!["100"]);
    assert_eq!(multifuture(&st, 1).unwrap(), vec!["100", "150"]);
    assert_eq!(
        multifuture(&st, 2).unwrap(),
        vec!["100", "150", "None", "None"]
    );
    assert!(multifuture(&st, 3).is_none());
}

#[test]
fn pending_window_width() {
    let mut st = instantiate(&InstantiateMsg {
        chain_id: 7,
        original_value: 100,
    });
    assert_eq!(calculate_pending_list_len(&st), 0);
    execute_tx(&mut st, &FcrossTx {
        tx_id: 1,
        operation: Operation::CreditBalance { amount: 1 },
    })
    .unwrap();
    execute_tx(&mut st, &FcrossTx {
        tx_id: 2,
        operation: Operation::CreditBalance { amount: 1 },
    })
    .unwrap();
    assert_eq!(calculate_pending_list_len(&st), 2);
    // the width counts from the oldest still-pending id, so a gap left by a
    // newer finalized id still widens the window
    finalize_tx(&mut st, &TxInfo {
        tx_id: 2,
        committed: true,
    })
    .unwrap();
    assert_eq!(st.pending_tx_list, vec![1]);
    assert_eq!(calculate_pending_list_len(&st), 2);
}

#[test]
fn unknown_finalization_id_is_rejected() {
    let mut st = instantiate(&InstantiateMsg {
        chain_id: 7,
        original_value: 100,
    });
    execute_tx(&mut st, &FcrossTx {
        tx_id: 1,
        operation: Operation::CreditBalance { amount: 1 },
    })
    .unwrap();
    let before = st.clone();
    let err = finalize_tx(&mut st, &TxInfo {
        tx_id: 5,
        committed: true,
    })
    .unwrap_err();
    assert_eq!(
        err,
        ContractError::MismatchedFinalizationTxId {
            sent_id: 5,
            expected_id: vec![1]
        }
    );
    assert_eq!(st, before);
}
