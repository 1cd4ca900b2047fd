//! Bootstrap configuration types and the helpers that bootstrapper
//! implementations share.
use aes_gcm::KeyInit;
use rand::Rng;
use vstd::prelude::*;
use vstd::string::StrSliceExecFns;

use crate::error::{OpError, StorageError};
use crate::key::{base64_encode, base64_standard, base64_standard_decode};
use crate::text::{decimal, is_digit, lemma_decimal_digits, lemma_decimal_len, pow10, push_decimal, str_eq};

verus! {

/// Connection parameters for bootstrap operations.
///
/// These are the raw parameters needed to connect to the storage backend
/// before any databases or schemas exist.
#[derive(Debug, Clone)]
pub struct BootstrapConfig {
    pub host: String,
    pub port: u16,
    pub admin_user: String,
    pub admin_password: Option<String>,
    pub app_user: String,
    pub app_password: String,
    pub catalog_db: String,
    pub data_db: String,
}

/// Result of a bootstrap admin user creation.
#[derive(Debug)]
pub struct AdminBootstrapResult {
    /// The admin username that was created or already existed.
    pub username: String,
    /// The password, if a new one was generated (not returned for pre-existing
    /// users or environment-sourced credentials).
    pub generated_password: Option<String>,
    /// Whether the user already existed (skipped creation).
    pub already_existed: bool,
    /// Whether credentials came from environment variables.
    pub from_env: bool,
}

/// Outcome of a repair of lost sort key definitions.
#[derive(Debug, Clone)]
pub struct KeyDefinitionRepair {
    /// Tables whose sort key definitions were restored, as
    /// `table_name: attribute (TYPE)` lines.
    pub repaired: Vec<String>,
    /// Tables that are damaged but could not be repaired automatically.
    pub needs_attention: Vec<String>,
}

impl Default for KeyDefinitionRepair {
    fn default() -> (r: Self)
        ensures
            r.repaired@.len() == 0,
            r.needs_attention@.len() == 0,
    {
        KeyDefinitionRepair { repaired: Vec::new(), needs_attention: Vec::new() }
    }
}

/// A configuration value that can be compared with another and shown in a
/// message.
pub trait ConfigValue {
    /// Whether two values are the same setting.
    spec fn same_as(&self, other: &Self) -> bool;

    /// The text that shows the value.
    spec fn shown(&self) -> Seq<char>;

    /// Compares two values.
    fn matches(&self, other: &Self) -> (r: bool)
        ensures
            r == self.same_as(other),
    ;

    /// Renders the value for a message.
    fn render(&self) -> (s: String)
        ensures
            s@ == self.shown(),
    ;
}

impl ConfigValue for String {
    open spec fn same_as(&self, other: &Self) -> bool {
        self@ == other@
    }

    open spec fn shown(&self) -> Seq<char> {
        self@
    }

    fn matches(&self, other: &Self) -> (r: bool) {
        str_eq(self.as_str(), other.as_str())
    }

    fn render(&self) -> (s: String) {
        self.clone()
    }
}

impl<'a> ConfigValue for &'a str {
    open spec fn same_as(&self, other: &Self) -> bool {
        (*self)@ == (*other)@
    }

    open spec fn shown(&self) -> Seq<char> {
        (*self)@
    }

    fn matches(&self, other: &Self) -> (r: bool) {
        str_eq(*self, *other)
    }

    fn render(&self) -> (s: String) {
        (*self).to_owned()
    }
}

impl ConfigValue for u16 {
    open spec fn same_as(&self, other: &Self) -> bool {
        *self == *other
    }

    open spec fn shown(&self) -> Seq<char> {
        decimal(*self as nat)
    }

    fn matches(&self, other: &Self) -> (r: bool) {
        *self == *other
    }

    fn render(&self) -> (s: String) {
        let mut s = String::new();
        push_decimal(&mut s, *self as u64);
        s
    }
}

/// True when a value was given on the command line and differs from the one
/// in the configuration file.
pub open spec fn conflicts<T: ConfigValue>(cli_val: Option<&T>, config_val: &T) -> bool {
    cli_val matches Some(v) && !v.same_as(config_val)
}

/// The message of a conflict between a command-line value and a configuration value.
pub open spec fn conflict_text(flag: Seq<char>, cli_shown: Seq<char>, config_shown: Seq<char>) -> Seq<char> {
    flag + " value '"@ + cli_shown + "' conflicts with config file value '"@ + config_shown + "'"@
}

/// The message of a conflict between two secret values; it holds neither.
pub open spec fn redacted_conflict_text(flag: Seq<char>) -> Seq<char> {
    flag + " conflicts with the value in the config file (values redacted)"@
}

/// Check that a CLI arg, if provided, matches the config value.
///
/// The error message includes both values, so this must only be used for
/// non-sensitive settings (hosts, ports, usernames). For secrets, use
/// [`check_conflict_redacted`].
pub fn check_conflict<T: ConfigValue>(cli_val: Option<&T>, config_val: &T, flag: &str) -> (r: Result<(), StorageError>)
    ensures
        r is Err <==> conflicts(cli_val, config_val),
        r matches Err(e) ==> e matches StorageError::Internal(m) && cli_val matches Some(v) && m@
            == conflict_text(flag@, v.shown(), config_val.shown()),
{
    if let Some(v) = cli_val {
        if !v.matches(config_val) {
            let mut m = flag.to_owned();
            m.append(" value '");
            m.append(v.render().as_str());
            m.append("' conflicts with config file value '");
            m.append(config_val.render().as_str());
            m.append("'");
            return Err(StorageError::Internal(m));
        }
    }
    Ok(())
}

/// Like [`check_conflict`], but the error message never contains either
/// value. Use for passwords and other secrets.
pub fn check_conflict_redacted<T: ConfigValue>(cli_val: Option<&T>, config_val: &T, flag: &str) -> (r: Result<
    (),
    StorageError,
>)
    ensures
        r is Err <==> conflicts(cli_val, config_val),
        r matches Err(e) ==> e matches StorageError::Internal(m) && m@ == redacted_conflict_text(flag@),
{
    if let Some(v) = cli_val {
        if !v.matches(config_val) {
            let mut m = flag.to_owned();
            m.append(" conflicts with the value in the config file (values redacted)");
            return Err(StorageError::Internal(m));
        }
    }
    Ok(())
}

/// The value that follows the first occurrence of `flag` among `args`, when
/// that occurrence is not the last argument.
pub open spec fn spec_extract_arg(args: Seq<Seq<char>>, flag: Seq<char>) -> Option<Seq<char>>
    decreases args.len(),
{
    if args.len() < 2 {
        None
    } else if args[0] == flag {
        Some(args[1])
    } else {
        spec_extract_arg(args.drop_first(), flag)
    }
}

/// Extract a CLI argument value by flag name.
pub fn extract_arg(args: &[String], flag: &str) -> (r: Option<String>)
    ensures
        match r {
            Some(v) => spec_extract_arg(args@.map_values(|a: String| a@), flag@) == Some(v@),
            None => spec_extract_arg(args@.map_values(|a: String| a@), flag@) is None,
        },
{
    let ghost all = args@.map_values(|a: String| a@);
    let mut i: usize = 0;
    assert(all.skip(0) =~= all);
    while i < args.len() && i + 1 < args.len()
        invariant
            i <= args@.len(),
            all == args@.map_values(|a: String| a@),
            spec_extract_arg(all.skip(i as int), flag@) == spec_extract_arg(all, flag@),
        decreases args@.len() - i,
    {
        let ghost rest = all.skip(i as int);
        assert(rest[0] == args@[i as int]@);
        assert(rest[1] == args@[i + 1]@);
        if str_eq(args[i].as_str(), flag) {
            return Some(args[i + 1].clone());
        }
        assert(rest.drop_first() =~= all.skip(i + 1));
        i += 1;
    }
    assert(all.skip(i as int).len() < 2);
    None
}


/// Draws a number uniformly from `low..high` with `rand::rng().random_range`.
/// Stated: the number lies in the range; nothing else is promised, as it is random.
#[verifier::external_body]
pub(crate) fn random_u64_in(low: u64, high: u64) -> (r: u64)
    requires
        low < high,
    ensures
        low <= r < high,
{
    rand::rng().random_range(low..high)
}

/// Draws an index uniformly from `0..n` with `rand::rng().random_range`.
/// Stated: the index is below `n`; nothing else is promised, as it is random.
#[verifier::external_body]
pub(crate) fn random_index_below(n: usize) -> (r: usize)
    requires
        n > 0,
    ensures
        r < n,
{
    rand::rng().random_range(0..n)
}

/// Generates a key with `aes_gcm::Aes256Gcm::generate_key` from the operating
/// system's random source. Stated: the key is 32 bytes long; its bytes are random.
#[verifier::external_body]
fn random_aes256_key() -> (key: Vec<u8>)
    ensures
        key@.len() == 32,
{
    aes_gcm::Aes256Gcm::generate_key(&mut aes_gcm::aead::OsRng).to_vec()
}

/// What `bcrypt::verify` answers for a password and a stored hash: `Some` of
/// the comparison, or `None` where it fails (a hash it cannot parse). It
/// splits the hash into cost, salt and digest and hashes the password again
/// with them, so the answer depends on the two arguments alone.
pub uninterp spec fn bcrypt_verify_result(password: Seq<char>, hash: Seq<char>) -> Option<bool>;

/// Hashes a password with `bcrypt::hash` at `bcrypt::DEFAULT_COST`, the error
/// rendered as text. Stated: a hash is 60 characters long and starts with
/// `$2`, as `HashParts::format` writes `$2b$<cost>$<salt><hash>`, and
/// `bcrypt::verify` accepts the same password against it, since it recomputes
/// the digest with the cost and salt written in the hash. The salt is random,
/// so the hash itself is not stated, nor the error text.
#[verifier::external_body]
fn bcrypt_hash(password: &str) -> (r: Result<String, String>)
    ensures
        r matches Ok(h) ==> h@.len() == 60 && h@.take(2) == "$2"@,
        r matches Ok(h) ==> bcrypt_verify_result(password@, h@) == Some(true),
{
    bcrypt::hash(password, bcrypt::DEFAULT_COST).map_err(|e| e.to_string())
}

/// Checks a password against a stored hash with `bcrypt::verify`; its error
/// becomes `None`. Stated: the answer is the named result for the arguments.
#[verifier::external_body]
fn bcrypt_verify(password: &str, hash: &str) -> (r: Option<bool>)
    ensures
        r == bcrypt_verify_result(password@, hash@),
{
    bcrypt::verify(password, hash).ok()
}

/// True when bcrypt accepts the password against the hash.
pub open spec fn password_matches(password: Seq<char>, hash: Seq<char>) -> bool {
    bcrypt_verify_result(password, hash) == Some(true)
}

/// Verify a password against a stored bcrypt hash. A hash that bcrypt cannot
/// read counts as a mismatch.
pub fn verify_bcrypt(password: &str, hash: &str) -> (ok: bool)
    ensures
        ok == password_matches(password@, hash@),
{
    match bcrypt_verify(password, hash) {
        Some(b) => b,
        None => false,
    }
}

/// Generate a random 12-digit numeric account ID (matches AWS account ID format).
pub fn generate_account_id() -> (id: String)
    ensures
        exists|n: nat| 100_000_000_000 <= n < 1_000_000_000_000 && id@ == decimal(n),
        id@.len() == 12,
        forall|i: int| 0 <= i < id@.len() ==> is_digit(#[trigger] id@[i]),
{
    let n = random_u64_in(100_000_000_000, 1_000_000_000_000);
    let mut id = String::new();
    push_decimal(&mut id, n);
    proof {
        reveal_with_fuel(pow10, 13);
        assert(pow10(11) == 100_000_000_000);
        assert(pow10(12) == 1_000_000_000_000);
        lemma_decimal_len(n as nat, 11);
        lemma_decimal_digits(n as nat);
        assert(id@ =~= decimal(n as nat));
    }
    id
}

/// True for ASCII letters and digits.
pub open spec fn is_alphanumeric(c: char) -> bool {
    ('A' <= c <= 'Z') || ('a' <= c <= 'z') || ('0' <= c <= '9')
}

/// Generate a 24-character random password using alphanumeric characters only.
///
/// Restricted to `[a-zA-Z0-9]` to avoid URL-encoding issues in form submissions,
/// shell copy-paste problems, and other contexts where special characters break.
pub fn generate_random_password() -> (password: String)
    ensures
        password@.len() == 24,
        forall|i: int| 0 <= i < password@.len() ==> is_alphanumeric(#[trigger] password@[i]),
{
    let charset = "ABCDEFGHIJKLMNOPQRSTUVWXYZabcdefghijklmnopqrstuvwxyz0123456789";
    proof {
        reveal_strlit("ABCDEFGHIJKLMNOPQRSTUVWXYZabcdefghijklmnopqrstuvwxyz0123456789");
        assert(charset@.len() == 62);
        assert(forall|i: int| 0 <= i < 62 ==> is_alphanumeric(#[trigger] charset@[i]));
        assert(forall|i: int| 0 <= i < 62 ==> '\0' <= #[trigger] charset@[i] <= '\u{7f}');
    }
    let mut password = String::new();
    let mut count: usize = 0;
    while count < 24
        invariant
            count <= 24,
            password@.len() == count,
            charset@.len() == 62,
            vstd::string::is_ascii(charset),
            forall|i: int| 0 <= i < 62 ==> is_alphanumeric(#[trigger] charset@[i]),
            forall|i: int| 0 <= i < password@.len() ==> is_alphanumeric(#[trigger] password@[i]),
        decreases 24 - count,
    {
        let idx = random_index_below(62);
        let piece = charset.substring_ascii(idx, idx + 1);
        let ghost before = password@;
        password.append(piece);
        assert(piece@ =~= seq![charset@[idx as int]]);
        assert forall|i: int| 0 <= i < password@.len() implies is_alphanumeric(#[trigger] password@[i]) by {
            if i < before.len() {
                assert(password@[i] == before[i]);
            } else {
                assert(password@[i] == charset@[idx as int]);
            }
        }
        count += 1;
    }
    password
}

/// Generate a 256-bit AES-GCM encryption key and return it as base64.
pub fn generate_encryption_key() -> (key_b64: String)
    ensures
        exists|key: Seq<u8>|
            key.len() == 32 && key_b64@ == base64_standard(key) && #[trigger] base64_standard_decode(key_b64@)
                == Some(key),
{
    let key = random_aes256_key();
    base64_encode(key.as_slice())
}

/// The prefix of the message of a failed password hash.
pub open spec fn hash_failed_text() -> Seq<char> {
    "bcrypt hash failed: "@
}

/// Hash a password using bcrypt at the default cost.
///
/// bcrypt is CPU-intensive; an async caller runs this on a blocking thread.
pub fn hash_password(password: &str) -> (r: Result<String, OpError>)
    ensures
        r matches Ok(h) ==> h@.len() == 60 && h@.take(2) == "$2"@,
        r matches Ok(h) ==> password_matches(password@, h@),
        r matches Err(e) ==> e matches OpError::Internal(m) && m@.take(20) == hash_failed_text(),
{
    match bcrypt_hash(password) {
        Ok(h) => Ok(h),
        Err(msg) => {
            let mut m = "bcrypt hash failed: ".to_owned();
            m.append(msg.as_str());
            proof {
                reveal_strlit("bcrypt hash failed: ");
                assert(m@.take(20) =~= hash_failed_text());
            }
            Err(OpError::Internal(m))
        },
    }
}

} // verus!
