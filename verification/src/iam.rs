//! Identity records: the ARNs of IAM principals, how a failed catalog
//! write is reported, and which credential an access key id names.
use vstd::prelude::*;
use vstd::string::StrSliceExecFns;

use crate::error::OpError;
use crate::query::starts_with_chars;
use crate::text::{find_char, split_n, split_n_exec, str_eq};

verus! {

/// The kind of an IAM principal.
#[derive(PartialEq, Eq, Structural, Clone, Copy, Debug)]
pub enum PrincipalKind {
    User,
    Group,
    Role,
}

/// The resource type of a principal kind in an ARN.
pub open spec fn principal_kind_text(k: PrincipalKind) -> Seq<char> {
    match k {
        PrincipalKind::User => "user"@,
        PrincipalKind::Group => "group"@,
        PrincipalKind::Role => "role"@,
    }
}

/// The ARN of a principal of an account.
pub open spec fn spec_iam_arn(account_id: Seq<char>, kind: PrincipalKind, name: Seq<char>) -> Seq<char> {
    "arn:aws:iam::"@ + account_id + ":"@ + principal_kind_text(kind) + "/"@ + name
}

/// Returns the ARN of a principal of an account.
pub fn iam_arn(account_id: &str, kind: PrincipalKind, name: &str) -> (arn: String)
    ensures
        arn@ == spec_iam_arn(account_id@, kind, name@),
{
    let mut arn = "arn:aws:iam::".to_owned();
    arn.append(account_id);
    arn.append(":");
    arn.append(
        match kind {
            PrincipalKind::User => "user",
            PrincipalKind::Group => "group",
            PrincipalKind::Role => "role",
        },
    );
    arn.append("/");
    arn.append(name);
    arn
}

/// The SQLSTATE of a unique constraint violation.
pub open spec fn unique_violation_code() -> Seq<char> {
    "23505"@
}

/// The SQLSTATE of a foreign key violation.
pub open spec fn fk_violation_code() -> Seq<char> {
    "23503"@
}

/// The error a failed catalog write reports, given the SQLSTATE of the
/// database error, if it has one: a unique violation reports that the
/// entity exists, a foreign key violation that what it refers to is
/// missing (each where the write names a message for it); anything else
/// is an internal error that reveals no detail.
pub fn write_error(sqlstate: Option<&str>, on_unique: Option<&str>, on_fk: Option<&str>) -> (e: OpError)
    ensures
        match (sqlstate, on_unique, on_fk) {
            (Some(c), Some(m), _) if c@ == unique_violation_code() => e matches OpError::AlreadyExists(x)
                && x@ == m@,
            (Some(c), _, Some(m)) if c@ == fk_violation_code() => e matches OpError::NotFound(x) && x@
                == m@,
            _ => e matches OpError::Internal(x) && x@ == "Database error"@,
        },
{
    proof {
        reveal_strlit("23505");
        reveal_strlit("23503");
        assert(unique_violation_code()[4] != fk_violation_code()[4]);
    }
    match sqlstate {
        Some(c) => {
            if str_eq(c, "23505") {
                if let Some(m) = on_unique {
                    return OpError::AlreadyExists(m.to_owned());
                }
            } else if str_eq(c, "23503") {
                if let Some(m) = on_fk {
                    return OpError::NotFound(m.to_owned());
                }
            }
        },
        None => {},
    }
    OpError::Internal("Database error".to_owned())
}

/// The credential an access key id names.
#[derive(PartialEq, Eq, Structural, Clone, Copy, Debug)]
pub enum CredentialKind {
    /// A long-term access key of an IAM user (`AKIA...`).
    UserKey,
    /// A temporary key of a role session (`ASIA...`).
    SessionKey,
}

/// The credential an access key id names, by its prefix; an id with
/// neither prefix names none.
pub fn credential_kind(access_key_id: &str) -> (k: Option<CredentialKind>)
    ensures
        k == if "AKIA"@.is_prefix_of(access_key_id@) {
            Some(CredentialKind::UserKey)
        } else if "ASIA"@.is_prefix_of(access_key_id@) {
            Some(CredentialKind::SessionKey)
        } else {
            None
        },
{
    proof {
        reveal_strlit("AKIA");
        reveal_strlit("ASIA");
    }
    if starts_with_chars(access_key_id, "AKIA") {
        Some(CredentialKind::UserKey)
    } else if starts_with_chars(access_key_id, "ASIA") {
        Some(CredentialKind::SessionKey)
    } else {
        None
    }
}

/// Whether a session that expires at `expires_at` has expired at `now`
/// (both in seconds since the Unix epoch): strictly after its expiry.
pub fn session_expired(expires_at: i64, now: i64) -> (r: bool)
    ensures
        r == (expires_at < now),
{
    expires_at < now
}

/// The outcome of a catalog update or delete that succeeded in the
/// database: when it touched no row, the entity it names does not exist,
/// reported with the message the operation names.
pub fn affected_result(rows_affected: u64, not_found: &str) -> (r: Result<(), OpError>)
    ensures
        rows_affected == 0 ==> (r matches Err(OpError::NotFound(m)) && m@ == not_found@),
        rows_affected != 0 ==> r is Ok,
{
    if rows_affected == 0 {
        Err(OpError::NotFound(not_found.to_owned()))
    } else {
        Ok(())
    }
}

/// The text up to the first `/`, or the whole text when it holds none.
pub open spec fn first_path_segment(s: Seq<char>) -> Seq<char> {
    match find_char(s, '/') {
        Some(i) => s.take(i),
        None => s,
    }
}

/// Whose tags describe the caller named by a principal resource:
/// `user/<name>` names a user, `role/<name>` a role, and
/// `assumed-role/<role>/<session>` the role of the session; any other
/// resource, or an assumed role without a role name, has no tags.
pub open spec fn spec_caller_tag_owner(resource: Seq<char>) -> Option<(PrincipalKind, Seq<char>)> {
    if "user/"@.is_prefix_of(resource) {
        Some((PrincipalKind::User, resource.skip("user/"@.len() as int)))
    } else if "role/"@.is_prefix_of(resource) {
        Some((PrincipalKind::Role, resource.skip("role/"@.len() as int)))
    } else if "assumed-role/"@.is_prefix_of(resource) {
        let role = first_path_segment(resource.skip("assumed-role/"@.len() as int));
        if role.len() == 0 {
            None
        } else {
            Some((PrincipalKind::Role, role))
        }
    } else {
        None
    }
}

/// Names the principal whose tags are the caller's tags, for a principal
/// resource such as `user/alice` or `assumed-role/admin/session-1`.
pub fn caller_tag_owner(resource: &str) -> (r: Option<(PrincipalKind, String)>)
    ensures
        match spec_caller_tag_owner(resource@) {
            Some((k, n)) => r matches Some((rk, rn)) && rk == k && rn@ == n,
            None => r is None,
        },
{
    proof {
        reveal_strlit("user/");
        reveal_strlit("role/");
        reveal_strlit("assumed-role/");
    }
    let len = resource.unicode_len();
    if starts_with_chars(resource, "user/") {
        let name = resource.substring_char(5, len).to_owned();
        assert(name@ =~= resource@.skip(5));
        return Some((PrincipalKind::User, name));
    }
    if starts_with_chars(resource, "role/") {
        let name = resource.substring_char(5, len).to_owned();
        assert(name@ =~= resource@.skip(5));
        return Some((PrincipalKind::Role, name));
    }
    if starts_with_chars(resource, "assumed-role/") {
        let rest = resource.substring_char(13, len);
        assert(rest@ =~= resource@.skip(13));
        let pieces = split_n_exec(rest, '/', 2);
        assert(split_n(rest@, '/', 2).len() >= 1);
        assert(pieces@[0]@ == split_n(rest@, '/', 2)[0]);
        assert(split_n(rest@, '/', 2)[0] == first_path_segment(rest@));
        let role = pieces[0].clone();
        if role.unicode_len() == 0 {
            return None;
        }
        return Some((PrincipalKind::Role, role));
    }
    None
}

} // verus!
