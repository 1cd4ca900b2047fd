//! Records returned by the management and authorization stores.
use vstd::prelude::*;

verus! {

/// Account detail returned by a management store.
pub struct AccountDetail {
    pub account_name: String,
    pub users: Vec<String>,
    pub groups: Vec<String>,
    pub roles: Vec<String>,
}

/// User detail returned by a management store.
pub struct UserDetail {
    /// `(access_key_id, is_active)`.
    pub keys: Vec<(String, bool)>,
    pub policies: Vec<String>,
    /// `(tag_key, tag_value)`.
    pub tags: Vec<(String, String)>,
    pub groups: Vec<String>,
}

/// Group detail returned by a management store.
pub struct GroupDetail {
    pub members: Vec<String>,
    pub policies: Vec<String>,
    /// All users in the account (for add-member UI).
    pub all_users: Vec<String>,
}

/// Result of creating an access key.
pub struct AccessKeyCreated {
    pub access_key_id: String,
    pub secret_access_key: String,
}

/// Session data returned by an authorization store for a role session.
pub struct SessionData {
    /// The inline session policy document, if any.
    pub session_policy: Option<String>,
    /// Session tags as `(key, value)` pairs.
    pub session_tags: Vec<(String, String)>,
}

/// The catalog side of a backend, as an object that the server holds behind
/// a shared pointer. The asynchronous stores it combines are defined by the
/// application around this library.
pub trait CatalogStore: Send + Sync {
    /// The cached encryption key, if the settings table has been read.
    fn cached_encryption_key(&self) -> Option<String>;
}

} // verus!
