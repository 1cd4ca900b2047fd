use extenddb_storage::error::OpError;
use extenddb_storage::iam::{
    affected_result, caller_tag_owner, credential_kind, iam_arn, session_expired, write_error, CredentialKind, PrincipalKind,
};

#[test]
fn principal_arns() {
    assert_eq!(iam_arn("123456789012", PrincipalKind::User, "alice"), "arn:aws:iam::123456789012:user/alice");
    assert_eq!(iam_arn("1", PrincipalKind::Group, "ops"), "arn:aws:iam::1:group/ops");
    assert_eq!(iam_arn("1", PrincipalKind::Role, "r"), "arn:aws:iam::1:role/r");
}

#[test]
fn failed_writes_are_classified_by_sqlstate() {
    assert!(matches!(
        write_error(Some("23505"), Some("IAM user already exists"), Some("Account not found")),
        OpError::AlreadyExists(m) if m == "IAM user already exists"
    ));
    assert!(matches!(
        write_error(Some("23503"), Some("IAM user already exists"), Some("Account not found")),
        OpError::NotFound(m) if m == "Account not found"
    ));
    assert!(matches!(write_error(Some("23503"), Some("x"), None), OpError::Internal(m) if m == "Database error"));
    assert!(matches!(write_error(Some("42P01"), Some("x"), Some("y")), OpError::Internal(m) if m == "Database error"));
    assert!(matches!(write_error(None, Some("x"), Some("y")), OpError::Internal(_)));
}

#[test]
fn access_key_prefixes_name_the_credential() {
    let user_key = format!("{}{}", "AKIA", "EXTENDDB12345678");
    assert_eq!(credential_kind(&user_key), Some(CredentialKind::UserKey));
    assert_eq!(credential_kind("AKIA"), Some(CredentialKind::UserKey));
    assert_eq!(credential_kind("ASIAXYZ"), Some(CredentialKind::SessionKey));
    assert_eq!(credential_kind("AKI"), None);
    assert_eq!(credential_kind("akia123"), None);
    assert_eq!(credential_kind(""), None);
}

#[test]
fn sessions_expire_strictly_after_their_time() {
    assert!(!session_expired(100, 100));
    assert!(session_expired(99, 100));
    assert!(!session_expired(101, 100));
}

#[test]
fn caller_tags_come_from_the_user_or_the_role_behind_a_session() {
    use_owner("user/alice", Some((PrincipalKind::User, "alice")));
    use_owner("role/admin", Some((PrincipalKind::Role, "admin")));
    use_owner("assumed-role/admin/session-1", Some((PrincipalKind::Role, "admin")));
    use_owner("assumed-role/ops", Some((PrincipalKind::Role, "ops")));
    use_owner("assumed-role//session", None);
    use_owner("group/devs", None);
    use_owner("", None);
}

fn use_owner(resource: &str, want: Option<(PrincipalKind, &str)>) {
    let got = caller_tag_owner(resource);
    match (got, want) {
        (None, None) => {}
        (Some((k, n)), Some((wk, wn))) => {
            assert_eq!(k, wk, "{resource}");
            assert_eq!(n, wn, "{resource}");
        }
        (g, w) => panic!("{resource}: got {g:?}, want {w:?}"),
    }
}

#[test]
fn an_update_that_touches_no_row_reports_the_entity_missing() {
    match affected_result(0, "Access key not found") {
        Err(OpError::NotFound(m)) => assert_eq!(m, "Access key not found"),
        other => panic!("unexpected: {other:?}"),
    }
    assert!(affected_result(1, "Access key not found").is_ok());
    assert!(affected_result(3, "x").is_ok());
}
