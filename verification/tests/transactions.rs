use extenddb_storage::error::{CancellationReason, StorageError};
use extenddb_storage::transact::{
    condition_outcome, condition_reason, idempotency_outcome, key_check_result, needs_transaction,
    transaction_result, write_index_delay, OpOutcome, ReturnValuesOnConditionCheckFailure,
};
use extenddb_storage::types::{AttributeValue, Item};

fn item() -> Item {
    let mut it = Item::new();
    it.insert_new("pk".into(), AttributeValue::S("a".into()));
    it
}

#[test]
fn a_failed_condition_reports_the_old_item_only_when_asked() {
    let it = item();
    match condition_reason(Some(Ok(false)), ReturnValuesOnConditionCheckFailure::AllOld, Some(&it)) {
        Err(CancellationReason::ConditionalCheckFailed(Some(i))) => assert_eq!(i.attrs.len(), 1),
        other => panic!("unexpected {other:?}"),
    }
    assert!(matches!(
        condition_reason(Some(Ok(false)), ReturnValuesOnConditionCheckFailure::NoValues, Some(&it)),
        Err(CancellationReason::ConditionalCheckFailed(None))
    ));
    assert!(condition_reason(Some(Ok(true)), ReturnValuesOnConditionCheckFailure::AllOld, Some(&it)).is_ok());
    assert!(condition_reason(None, ReturnValuesOnConditionCheckFailure::AllOld, None).is_ok());
    match condition_reason(Some(Err("bad path".into())), ReturnValuesOnConditionCheckFailure::AllOld, None) {
        Err(CancellationReason::ValidationError(m)) => assert_eq!(m, "bad path"),
        other => panic!("unexpected {other:?}"),
    }
}

#[test]
fn single_write_conditions_map_to_storage_errors() {
    assert!(condition_outcome(None, None).is_ok());
    assert!(condition_outcome(Some(Ok(true)), Some(item())).is_ok());
    assert!(matches!(condition_outcome(Some(Ok(false)), Some(item())), Err(StorageError::ConditionFailed(Some(_)))));
    assert!(matches!(condition_outcome(Some(Ok(false)), None), Err(StorageError::ConditionFailed(None))));
    match condition_outcome(Some(Err("oops".into())), None) {
        Err(StorageError::Validation(m)) => assert_eq!(m, "oops"),
        other => panic!("unexpected {other:?}"),
    }
}

#[test]
fn a_transaction_succeeds_when_every_operation_applied() {
    assert!(transaction_result(&vec![OpOutcome::Applied, OpOutcome::Applied]).is_ok());
    assert!(transaction_result(&Vec::new()).is_ok());
}

#[test]
fn a_cancelled_operation_cancels_with_one_reason_per_operation() {
    let outcomes = vec![
        OpOutcome::Applied,
        OpOutcome::Cancelled(CancellationReason::ConditionalCheckFailed(None)),
        OpOutcome::Applied,
    ];
    match transaction_result(&outcomes) {
        Err(StorageError::TransactionCanceled(rs)) => {
            assert_eq!(rs.len(), 3);
            assert!(matches!(rs[0], CancellationReason::Passed));
            assert!(matches!(rs[1], CancellationReason::ConditionalCheckFailed(None)));
            assert!(matches!(rs[2], CancellationReason::Passed));
        }
        other => panic!("unexpected {other:?}"),
    }
}

#[test]
fn a_storage_failure_aborts_without_reasons() {
    let outcomes = vec![
        OpOutcome::Cancelled(CancellationReason::ValidationError("x".into())),
        OpOutcome::Failed("connection reset".into()),
        OpOutcome::Failed("later".into()),
    ];
    match transaction_result(&outcomes) {
        Err(StorageError::Internal(m)) => assert_eq!(m, "connection reset"),
        other => panic!("unexpected {other:?}"),
    }
}

#[test]
fn invalid_keys_cancel_a_transactional_read() {
    assert!(key_check_result(vec![Ok(()), Ok(())]).is_ok());
    match key_check_result(vec![Ok(()), Err("type mismatch".into())]) {
        Err(StorageError::TransactionCanceled(rs)) => {
            assert!(matches!(rs[0], CancellationReason::Passed));
            assert!(matches!(&rs[1], CancellationReason::ValidationError(m) if m == "type mismatch"));
        }
        other => panic!("unexpected {other:?}"),
    }
}

#[test]
fn idempotency_tokens_are_judged_by_fingerprint() {
    assert!(idempotency_outcome(None, "fp").is_ok());
    assert!(idempotency_outcome(Some(("fp".into(), true)), "fp").is_ok());
    assert!(matches!(idempotency_outcome(Some(("fp".into(), false)), "fp"), Err(StorageError::IdempotentReplay)));
    assert!(matches!(idempotency_outcome(Some(("other".into(), false)), "fp"), Err(StorageError::IdempotentMismatch)));
}

#[test]
fn write_path_switches() {
    assert!(!needs_transaction(false, false, false, false));
    assert!(needs_transaction(false, false, false, true));
    assert!(needs_transaction(true, false, false, false));
    assert_eq!(write_index_delay(false, 500), 0);
    assert_eq!(write_index_delay(true, 500), 500);
}
