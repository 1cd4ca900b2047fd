//! Error types shared by the storage layer.
use vstd::prelude::*;

use crate::types::{opt_item_view, AttrView, Item};

verus! {

/// Why one operation of a transaction was cancelled, or that it was not.
#[derive(Debug)]
pub enum CancellationReason {
    /// The operation passed: it was not the cause of the cancellation.
    Passed,
    /// The operation's input was invalid, with a description.
    ValidationError(String),
    /// The operation's condition failed; carries the existing item where
    /// the caller asked for it.
    ConditionalCheckFailed(Option<Item>),
}

/// The mathematical value of a [`CancellationReason`].
pub enum ReasonView {
    Passed,
    ValidationError(Seq<char>),
    ConditionalCheckFailed(Option<Seq<(Seq<char>, AttrView)>>),
}

impl View for CancellationReason {
    type V = ReasonView;

    open spec fn view(&self) -> ReasonView {
        match self {
            CancellationReason::Passed => ReasonView::Passed,
            CancellationReason::ValidationError(m) => ReasonView::ValidationError(m@),
            CancellationReason::ConditionalCheckFailed(i) => ReasonView::ConditionalCheckFailed(
                opt_item_view(*i),
            ),
        }
    }
}

impl CancellationReason {
    /// A copy of the reason.
    pub fn duplicate(&self) -> (r: CancellationReason)
        ensures
            r@ == self@,
    {
        match self {
            CancellationReason::Passed => CancellationReason::Passed,
            CancellationReason::ValidationError(m) => CancellationReason::ValidationError(m.clone()),
            CancellationReason::ConditionalCheckFailed(i) => CancellationReason::ConditionalCheckFailed(
                match i {
                    Some(item) => Some(item.duplicate()),
                    None => None,
                },
            ),
        }
    }
}

/// Error raised by a storage operation.
#[derive(Debug)]
pub enum StorageError {
    /// An internal failure, with a description.
    Internal(String),
    /// The request failed validation, with a description.
    Validation(String),
    /// The backend could not be reached, with a description.
    Connection(String),
    /// The named table does not exist.
    TableNotFound(String),
    /// The named table already exists.
    TableAlreadyExists(String),
    /// The named table is not `ACTIVE`.
    TableNotActive(String),
    /// The named index does not exist.
    IndexNotFound(String),
    /// The named index already exists.
    IndexAlreadyExists(String),
    /// A condition expression failed; carries the existing item where the
    /// caller asked for it.
    ConditionFailed(Option<Item>),
    /// A transactional write was cancelled, with one reason per operation.
    TransactionCanceled(Vec<CancellationReason>),
    /// The table (by ARN) has deletion protection enabled.
    DeletionProtected(String),
    /// An update that would change nothing, with a description.
    NoOpUpdate(String),
    /// The request repeats an earlier one under the same idempotency token.
    IdempotentReplay,
    /// The idempotency token was used for a different request.
    IdempotentMismatch,
    /// The catalog tables do not exist.
    CatalogNotInitialized,
    /// The catalog was written by another schema version.
    CatalogVersionMismatch { expected: String, found: String },
}

impl StorageError {
    /// The description carried by the error: its text where it carries
    /// one, and empty where it carries none.
    pub open spec fn spec_message(&self) -> Seq<char> {
        match self {
            StorageError::Internal(m) => m@,
            StorageError::Validation(m) => m@,
            StorageError::Connection(m) => m@,
            StorageError::TableNotFound(m) => m@,
            StorageError::TableAlreadyExists(m) => m@,
            StorageError::TableNotActive(m) => m@,
            StorageError::IndexNotFound(m) => m@,
            StorageError::IndexAlreadyExists(m) => m@,
            StorageError::DeletionProtected(m) => m@,
            StorageError::NoOpUpdate(m) => m@,
            _ => Seq::empty(),
        }
    }

    /// The description carried by the error, as text.
    pub fn message(&self) -> (m: String)
        ensures
            m@ == self.spec_message(),
    {
        match self {
            StorageError::Internal(m) => m.clone(),
            StorageError::Validation(m) => m.clone(),
            StorageError::Connection(m) => m.clone(),
            StorageError::TableNotFound(m) => m.clone(),
            StorageError::TableAlreadyExists(m) => m.clone(),
            StorageError::TableNotActive(m) => m.clone(),
            StorageError::IndexNotFound(m) => m.clone(),
            StorageError::IndexAlreadyExists(m) => m.clone(),
            StorageError::DeletionProtected(m) => m.clone(),
            StorageError::NoOpUpdate(m) => m.clone(),
            _ => String::new(),
        }
    }
}

/// Error from a management or operational storage operation.
#[derive(Debug)]
pub enum OpError {
    /// Input validation failed (caller should have caught this).
    Validation(String),
    /// Entity already exists (unique constraint violation).
    AlreadyExists(String),
    /// Referenced entity not found.
    NotFound(String),
    /// Cannot delete due to dependent entities.
    HasDependents(String),
    /// Internal storage error.
    Internal(String),
}

/// The text shown for a missing storage backend.
pub open spec fn no_backend_text() -> Seq<char> {
    "no storage backend installed (set_backend was not called)"@
}

/// Error type for diagnostics store creation.
#[derive(Debug)]
pub enum DiagnosticsStoreError {
    /// No storage backend has been installed (set_backend was not called).
    BackendNotInstalled,
    /// The connection attempt failed, with the reason.
    ConnectionFailed(String),
}

impl DiagnosticsStoreError {
    /// The human-readable description of the error.
    pub open spec fn spec_message(&self) -> Seq<char> {
        match self {
            DiagnosticsStoreError::BackendNotInstalled => no_backend_text(),
            DiagnosticsStoreError::ConnectionFailed(m) => "Failed to connect: "@ + m@,
        }
    }

    /// Renders the error as text.
    pub fn message(&self) -> (m: String)
        ensures
            m@ == self.spec_message(),
    {
        match self {
            DiagnosticsStoreError::BackendNotInstalled => {
                "no storage backend installed (set_backend was not called)".to_owned()
            },
            DiagnosticsStoreError::ConnectionFailed(msg) => {
                let mut out = "Failed to connect: ".to_owned();
                out.append(msg.as_str());
                out
            },
        }
    }
}

/// Error type for settings store creation.
#[derive(Debug)]
pub enum SettingsStoreError {
    /// No storage backend has been installed (set_backend was not called).
    BackendNotInstalled,
    /// The connection attempt failed, with the reason.
    ConnectionFailed(String),
}

impl SettingsStoreError {
    /// The human-readable description of the error.
    pub open spec fn spec_message(&self) -> Seq<char> {
        match self {
            SettingsStoreError::BackendNotInstalled => no_backend_text(),
            SettingsStoreError::ConnectionFailed(m) => "Failed to connect: "@ + m@,
        }
    }

    /// Renders the error as text.
    pub fn message(&self) -> (m: String)
        ensures
            m@ == self.spec_message(),
    {
        match self {
            SettingsStoreError::BackendNotInstalled => {
                "no storage backend installed (set_backend was not called)".to_owned()
            },
            SettingsStoreError::ConnectionFailed(msg) => {
                let mut out = "Failed to connect: ".to_owned();
                out.append(msg.as_str());
                out
            },
        }
    }
}

} // verus!
