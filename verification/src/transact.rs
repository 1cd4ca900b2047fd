//! The decisions of the write path: how a condition's outcome becomes an
//! error or a cancellation reason, how the outcomes of a transaction's
//! operations become its result, and how an idempotency token is judged.
use vstd::prelude::*;

use crate::error::{CancellationReason, ReasonView, StorageError};
use crate::text::str_eq;
use crate::types::{opt_item_view, AttrView, Item};

verus! {

/// What a failed condition reports of the existing item.
#[derive(PartialEq, Eq, Structural, Clone, Copy, Debug)]
pub enum ReturnValuesOnConditionCheckFailure {
    /// The item as it stood.
    AllOld,
    /// Nothing.
    NoValues,
}

/// The reason a transactional operation reports for its condition. The
/// condition was evaluated outside: `evaluated` is `None` when the
/// operation has no condition, else whether it passed or why it could not
/// be evaluated.
pub fn condition_reason(
    evaluated: Option<Result<bool, String>>,
    on_failure: ReturnValuesOnConditionCheckFailure,
    existing: Option<&Item>,
) -> (r: Result<(), CancellationReason>)
    ensures
        match evaluated {
            None => r is Ok,
            Some(Ok(true)) => r is Ok,
            Some(Ok(false)) => r matches Err(reason) && reason@ == ReasonView::ConditionalCheckFailed(
                if on_failure == ReturnValuesOnConditionCheckFailure::AllOld {
                    match existing {
                        Some(i) => Some(i@),
                        None => None,
                    }
                } else {
                    None
                },
            ),
            Some(Err(m)) => r matches Err(reason) && reason@ == ReasonView::ValidationError(m@),
        },
{
    match evaluated {
        None => Ok(()),
        Some(Ok(true)) => Ok(()),
        Some(Ok(false)) => {
            let item = match on_failure {
                ReturnValuesOnConditionCheckFailure::AllOld => match existing {
                    Some(i) => Some(i.duplicate()),
                    None => None,
                },
                ReturnValuesOnConditionCheckFailure::NoValues => None,
            };
            Err(CancellationReason::ConditionalCheckFailed(item))
        },
        Some(Err(m)) => Err(CancellationReason::ValidationError(m)),
    }
}

/// The error a single write reports for its condition. The condition was
/// evaluated outside: `evaluated` is `None` when the write has no
/// condition. `reported` is the item a failure carries: the existing item,
/// or `None` when there was none.
pub fn condition_outcome(evaluated: Option<Result<bool, String>>, reported: Option<Item>) -> (r:
    Result<(), StorageError>)
    ensures
        match evaluated {
            None => r is Ok,
            Some(Ok(true)) => r is Ok,
            Some(Ok(false)) => r matches Err(StorageError::ConditionFailed(i)) && opt_item_view(i)
                == opt_item_view(reported),
            Some(Err(m)) => r matches Err(StorageError::Validation(v)) && v@ == m@,
        },
{
    match evaluated {
        None => Ok(()),
        Some(Ok(true)) => Ok(()),
        Some(Ok(false)) => Err(StorageError::ConditionFailed(reported)),
        Some(Err(m)) => Err(StorageError::Validation(m)),
    }
}

/// How one operation of a transactional write ended.
pub enum OpOutcome {
    /// It was applied.
    Applied,
    /// It was cancelled by its input or its condition, for this reason.
    Cancelled(CancellationReason),
    /// The storage failed while applying it, with a description.
    Failed(String),
}

/// The reason an operation reports in a cancelled transaction.
pub open spec fn reported_reason(o: OpOutcome) -> ReasonView {
    match o {
        OpOutcome::Cancelled(r) => r@,
        _ => ReasonView::Passed,
    }
}

/// The description of a storage failure (empty for other outcomes).
pub open spec fn failure_text(o: OpOutcome) -> Seq<char> {
    match o {
        OpOutcome::Failed(f) => f@,
        _ => Seq::empty(),
    }
}

/// The operation at `i` is the first whose storage failed.
pub open spec fn first_failed_at(outcomes: Seq<OpOutcome>, i: int) -> bool {
    &&& 0 <= i < outcomes.len()
    &&& outcomes[i] is Failed
    &&& forall|j: int| 0 <= j < i ==> !(#[trigger] outcomes[j] is Failed)
}

/// The result of a transactional write from the outcomes of its operations,
/// in order. A storage failure aborts the transaction with an internal
/// error that carries the first failure's description and no cancellation
/// reasons; otherwise any cancelled operation cancels the transaction, with
/// one reason per operation; otherwise the transaction succeeds.
pub fn transaction_result(outcomes: &Vec<OpOutcome>) -> (r: Result<(), StorageError>)
    ensures
        (exists|i: int| #[trigger] first_failed_at(outcomes@, i)) ==> (r matches Err(
            StorageError::Internal(m),
        ) && exists|i: int|
            #[trigger] first_failed_at(outcomes@, i) && failure_text(outcomes@[i]) == m@),
        (forall|i: int| 0 <= i < outcomes@.len() ==> !(#[trigger] outcomes@[i] is Failed)) ==> {
            if exists|i: int| 0 <= i < outcomes@.len() && #[trigger] outcomes@[i] is Cancelled {
                r matches Err(StorageError::TransactionCanceled(rs)) && rs@.len() == outcomes@.len()
                    && forall|i: int|
                    0 <= i < outcomes@.len() ==> (#[trigger] rs@[i])@ == reported_reason(
                        outcomes@[i],
                    )
            } else {
                r is Ok
            }
        },
{
    let mut i: usize = 0;
    while i < outcomes.len()
        invariant
            i <= outcomes@.len(),
            forall|j: int| 0 <= j < i ==> !(#[trigger] outcomes@[j] is Failed),
        decreases outcomes@.len() - i,
    {
        match &outcomes[i] {
            OpOutcome::Failed(m) => {
                assert(first_failed_at(outcomes@, i as int));
                return Err(StorageError::Internal(m.clone()));
            },
            _ => {},
        }
        i += 1;
    }
    assert(forall|j: int| 0 <= j < outcomes@.len() ==> !(#[trigger] outcomes@[j] is Failed));
    let mut any_cancelled = false;
    let mut reasons: Vec<CancellationReason> = Vec::new();
    let mut k: usize = 0;
    while k < outcomes.len()
        invariant
            k <= outcomes@.len(),
            reasons@.len() == k,
            forall|j: int| 0 <= j < k ==> (#[trigger] reasons@[j])@ == reported_reason(outcomes@[j]),
            any_cancelled <==> exists|j: int| 0 <= j < k && #[trigger] outcomes@[j] is Cancelled,
        decreases outcomes@.len() - k,
    {
        match &outcomes[k] {
            OpOutcome::Cancelled(reason) => {
                reasons.push(reason.duplicate());
                any_cancelled = true;
            },
            _ => {
                reasons.push(CancellationReason::Passed);
            },
        }
        k += 1;
    }
    if any_cancelled {
        Err(StorageError::TransactionCanceled(reasons))
    } else {
        Ok(())
    }
}

/// The outcome of checking a transactional read's keys before reading:
/// `checks` holds, for each operation in order, whether its key is valid or
/// why not. Any invalid key cancels the read, with one reason per
/// operation.
pub fn key_check_result(checks: Vec<Result<(), String>>) -> (r: Result<(), StorageError>)
    ensures
        if exists|i: int| 0 <= i < checks@.len() && #[trigger] checks@[i] is Err {
            r matches Err(StorageError::TransactionCanceled(rs)) && rs@.len() == checks@.len()
                && forall|i: int|
                0 <= i < checks@.len() ==> (#[trigger] rs@[i])@ == match checks@[i] {
                    Ok(()) => ReasonView::Passed,
                    Err(m) => ReasonView::ValidationError(m@),
                }
        } else {
            r is Ok
        },
{
    let mut outcomes: Vec<OpOutcome> = Vec::new();
    let mut i: usize = 0;
    while i < checks.len()
        invariant
            i <= checks@.len(),
            outcomes@.len() == i,
            forall|j: int|
                0 <= j < i ==> match checks@[j] {
                    Ok(()) => #[trigger] outcomes@[j] is Applied,
                    Err(m) => outcomes@[j] matches OpOutcome::Cancelled(c) && c@
                        == ReasonView::ValidationError(m@),
                },
        decreases checks@.len() - i,
    {
        match &checks[i] {
            Ok(()) => outcomes.push(OpOutcome::Applied),
            Err(m) => outcomes.push(OpOutcome::Cancelled(CancellationReason::ValidationError(m.clone()))),
        }
        i += 1;
    }
    assert forall|j: int| 0 <= j < outcomes@.len() implies !(#[trigger] outcomes@[j] is Failed) by {
        match checks@[j] {
            Ok(()) => {},
            Err(m) => {},
        }
    }
    proof {
        if exists|j: int| 0 <= j < checks@.len() && #[trigger] checks@[j] is Err {
            let j = choose|j: int| 0 <= j < checks@.len() && #[trigger] checks@[j] is Err;
            assert(outcomes@[j] is Cancelled);
        } else {
            assert forall|j: int| 0 <= j < outcomes@.len() implies !(#[trigger] outcomes@[j] is Cancelled) by {
                assert(checks@[j] is Ok);
            }
        }
    }
    let r = transaction_result(&outcomes);
    proof {
        if r is Err {
            assert forall|j: int| 0 <= j < checks@.len() implies reported_reason(#[trigger] outcomes@[j]) == match checks@[j] {
                Ok(()) => ReasonView::Passed,
                Err(m) => ReasonView::ValidationError(m@),
            } by {
                match checks@[j] {
                    Ok(()) => {},
                    Err(m) => {},
                }
            }
        }
    }
    r
}

/// Judges an idempotency token from what the token store answered: `None`
/// or a row marked as just inserted means the token is new; a stored row
/// with the same request fingerprint is a replay; one with another
/// fingerprint is a mismatch.
pub fn idempotency_outcome(row: Option<(String, bool)>, fingerprint: &str) -> (r: Result<
    (),
    StorageError,
>)
    ensures
        match row {
            None => r is Ok,
            Some((stored, inserted)) => if inserted {
                r is Ok
            } else if stored@ == fingerprint@ {
                r matches Err(StorageError::IdempotentReplay)
            } else {
                r matches Err(StorageError::IdempotentMismatch)
            },
        },
{
    match row {
        None => Ok(()),
        Some((stored, inserted)) => {
            if inserted {
                Ok(())
            } else if str_eq(stored.as_str(), fingerprint) {
                Err(StorageError::IdempotentReplay)
            } else {
                Err(StorageError::IdempotentMismatch)
            }
        },
    }
}

/// Whether a delete must read the item inside a transaction before
/// removing it: to check a condition, return the old item, maintain
/// indexes, or write a stream record.
pub fn needs_transaction(has_condition: bool, return_old: bool, has_indexes: bool, has_stream: bool) -> (r:
    bool)
    ensures
        r == (has_condition || return_old || has_indexes || has_stream),
{
    has_condition || return_old || has_indexes || has_stream
}

/// The system default index delay a write applies: the cached default
/// when the table has indexes, none otherwise.
pub fn write_index_delay(has_indexes: bool, cached_default_ms: u64) -> (ms: u64)
    ensures
        ms == if has_indexes {
            cached_default_ms
        } else {
            0
        },
{
    if has_indexes {
        cached_default_ms
    } else {
        0
    }
}

} // verus!
