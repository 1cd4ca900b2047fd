//! Classification of database error messages and checks on identifiers.
use vstd::prelude::*;

use crate::error::StorageError;
use crate::text::{contains_seq, str_contains};

verus! {

/// A bindable parameter value.
pub enum Val<'a> {
    Text(&'a str),
    Int(i64),
    Blob(&'a [u8]),
    Null,
}

/// True if the message is a SQLite UNIQUE / PRIMARY KEY constraint violation.
pub fn is_unique_violation(msg: &str) -> (r: bool)
    ensures
        r == (contains_seq(msg@, "UNIQUE constraint failed"@) || contains_seq(
            msg@,
            "PRIMARY KEY constraint failed"@,
        )),
{
    str_contains(msg, "UNIQUE constraint failed") || str_contains(msg, "PRIMARY KEY constraint failed")
}

/// True if the message is a SQLite FOREIGN KEY constraint violation.
pub fn is_fk_violation(msg: &str) -> (r: bool)
    ensures
        r == contains_seq(msg@, "FOREIGN KEY constraint failed"@),
{
    str_contains(msg, "FOREIGN KEY constraint failed")
}

/// True if an error is caused by an undefined table (PostgreSQL SQLSTATE
/// 42P01), as when a table is deleted while index propagation is in flight.
pub fn is_undefined_table(err: &StorageError) -> (r: bool)
    ensures
        r == (err matches StorageError::Internal(m) && contains_seq(m@, "42P01"@)),
{
    match err {
        StorageError::Internal(msg) => str_contains(msg.as_str(), "42P01"),
        _ => false,
    }
}

/// True when an account id may be interpolated into a quoted SQL identifier:
/// ASCII only, with no double quote and no NUL.
pub open spec fn identifier_safe(account_id: Seq<char>) -> bool {
    &&& !account_id.contains('"')
    &&& !account_id.contains('\0')
    &&& vstd::utf8::is_ascii_chars(account_id)
}

/// The message of the error for an account id that is unsafe in identifiers.
pub open spec fn unsafe_account_text() -> Seq<char> {
    "account_id contains invalid characters for use in SQL identifiers"@
}

/// Defense-in-depth: validate `account_id` before use in SQL identifiers.
pub fn validate_account_id(account_id: &str) -> (r: Result<(), StorageError>)
    ensures
        r is Ok <==> identifier_safe(account_id@),
        r matches Err(e) ==> e matches StorageError::Internal(m) && m@ == unsafe_account_text(),
{
    let chars = crate::text::chars_of(account_id);
    let mut i: usize = 0;
    while i < chars.len()
        invariant
            chars@ == account_id@,
            i <= chars@.len(),
            forall|j: int| 0 <= j < i ==> chars@[j] != '"' && chars@[j] != '\0',
        decreases chars@.len() - i,
    {
        let c = chars[i];
        if c == '"' || c == '\0' {
            proof {
                if c == '"' {
                    assert(account_id@[i as int] == '"');
                } else {
                    assert(account_id@[i as int] == '\0');
                }
            }
            return Err(
                StorageError::Internal(
                    "account_id contains invalid characters for use in SQL identifiers".to_owned(),
                ),
            );
        }
        i += 1;
    }
    if !account_id.is_ascii() {
        return Err(
            StorageError::Internal(
                "account_id contains invalid characters for use in SQL identifiers".to_owned(),
            ),
        );
    }
    Ok(())
}

} // verus!
