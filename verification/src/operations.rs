//! Backend operations for the CLI lifecycle commands (init, serve, destroy,
//! verify), and the delegation to the installed backend's engine.
use vstd::prelude::*;

use crate::error::{no_backend_text, StorageError};

verus! {

/// Parsed connection string components (backend-agnostic).
#[derive(Debug, Clone)]
pub struct ConnectionParts {
    pub host: String,
    pub port: u16,
    pub user: String,
    pub password: String,
    pub database: String,
}

/// The components of a parsed connection string, as plain values.
pub type ConnectionPartsView = (Seq<char>, u16, Seq<char>, Seq<char>, Seq<char>);

impl View for ConnectionParts {
    type V = ConnectionPartsView;

    open spec fn view(&self) -> ConnectionPartsView {
        (self.host@, self.port, self.user@, self.password@, self.database@)
    }
}

/// Backend-specific operations for the CLI commands. Each backend implements
/// it; the spec functions name what that backend's implementation answers.
pub trait OperationsEngine {
    /// Whether the backend accepts `s` as a connection string.
    spec fn accepts_connection_string(&self, s: Seq<char>) -> bool;

    /// The components the backend reads from the connection string `s`.
    spec fn connection_parts_of(&self, s: Seq<char>) -> ConnectionPartsView;

    /// The backend's redaction of the connection string `s`.
    spec fn redaction_of(&self, s: Seq<char>) -> Seq<char>;

    /// Whether `name` is a valid identifier for DDL under this backend.
    spec fn identifier_is_valid(&self, name: Seq<char>, label: Seq<char>) -> bool;

    /// The catalog schema version of this backend.
    spec fn version(&self) -> Seq<char>;

    /// Whether the configuration key `key` holds sensitive data.
    spec fn key_is_sensitive(&self, key: Seq<char>) -> bool;

    /// Parse a backend-specific connection string into components.
    fn parse_connection_string(&self, s: &str) -> (r: Result<ConnectionParts, StorageError>)
        ensures
            r is Ok <==> self.accepts_connection_string(s@),
            r matches Ok(p) ==> p@ == self.connection_parts_of(s@),
    ;

    /// Redact sensitive information from a connection string for logging.
    fn redact_connection_string(&self, s: &str) -> (r: String)
        ensures
            r@ == self.redaction_of(s@),
    ;

    /// Validate an identifier (database name, table name, etc.) for DDL safety.
    fn validate_identifier(&self, name: &str, label: &str) -> (r: Result<(), StorageError>)
        ensures
            r is Ok <==> self.identifier_is_valid(name@, label@),
    ;

    /// Get the catalog schema version for this backend.
    fn catalog_version(&self) -> (r: String)
        ensures
            r@ == self.version(),
    ;

    /// Check if a configuration key contains sensitive data that should be redacted.
    fn is_sensitive_key(&self, key: &str) -> (r: bool)
        ensures
            r == self.key_is_sensitive(key@),
    ;
}

/// The error for a call made before any backend was installed.
fn no_backend() -> (e: StorageError)
    ensures
        e matches StorageError::Internal(m) && m@ == no_backend_text(),
{
    StorageError::Internal("no storage backend installed (set_backend was not called)".to_owned())
}

/// True when `r` is the error for a missing backend.
pub open spec fn is_no_backend_error(e: StorageError) -> bool {
    e matches StorageError::Internal(m) && m@ == no_backend_text()
}

/// Get the operations engine of the installed backend.
///
/// # Errors
///
/// Returns an error if no backend has been installed.
pub fn get_operations_engine<E: OperationsEngine + ?Sized>(installed: Option<&E>) -> (r: Result<&E, StorageError>)
    ensures
        match r {
            Ok(e) => installed == Some(e),
            Err(e) => installed is None && is_no_backend_error(e),
        },
{
    match installed {
        Some(e) => Ok(e),
        None => Err(no_backend()),
    }
}

/// Get the catalog version for a backend.
pub fn catalog_version<E: OperationsEngine + ?Sized>(installed: Option<&E>) -> (r: Result<String, StorageError>)
    ensures
        match r {
            Ok(v) => installed matches Some(e) && v@ == e.version(),
            Err(e) => installed is None && is_no_backend_error(e),
        },
{
    match get_operations_engine(installed) {
        Ok(e) => Ok(e.catalog_version()),
        Err(e) => Err(e),
    }
}

/// Redact sensitive information from a connection string.
pub fn redact_connection_string<E: OperationsEngine + ?Sized>(installed: Option<&E>, s: &str) -> (r: Result<
    String,
    StorageError,
>)
    ensures
        match r {
            Ok(v) => installed matches Some(e) && v@ == e.redaction_of(s@),
            Err(e) => installed is None && is_no_backend_error(e),
        },
{
    match get_operations_engine(installed) {
        Ok(e) => Ok(e.redact_connection_string(s)),
        Err(e) => Err(e),
    }
}

/// Parse a connection string into components.
pub fn parse_connection_string<E: OperationsEngine + ?Sized>(installed: Option<&E>, s: &str) -> (r: Result<
    ConnectionParts,
    StorageError,
>)
    ensures
        match installed {
            None => r matches Err(e) && is_no_backend_error(e),
            Some(e) => {
                &&& (r is Ok <==> e.accepts_connection_string(s@))
                &&& (r matches Ok(p) ==> p@ == e.connection_parts_of(s@))
            },
        },
{
    match get_operations_engine(installed) {
        Ok(e) => e.parse_connection_string(s),
        Err(e) => Err(e),
    }
}

/// Validate an identifier for DDL safety.
pub fn validate_identifier<E: OperationsEngine + ?Sized>(installed: Option<&E>, name: &str, label: &str) -> (r: Result<
    (),
    StorageError,
>)
    ensures
        match installed {
            None => r matches Err(e) && is_no_backend_error(e),
            Some(e) => r is Ok <==> e.identifier_is_valid(name@, label@),
        },
{
    match get_operations_engine(installed) {
        Ok(e) => e.validate_identifier(name, label),
        Err(e) => Err(e),
    }
}

/// Check if a configuration key contains sensitive data.
pub fn is_sensitive_key<E: OperationsEngine + ?Sized>(installed: Option<&E>, key: &str) -> (r: Result<bool, StorageError>)
    ensures
        match r {
            Ok(b) => installed matches Some(e) && b == e.key_is_sensitive(key@),
            Err(e) => installed is None && is_no_backend_error(e),
        },
{
    match get_operations_engine(installed) {
        Ok(e) => Ok(e.is_sensitive_key(key)),
        Err(e) => Err(e),
    }
}

} // verus!
