use extenddb_storage::bootstrapper::BootstrapConfig;
use extenddb_storage::error::OpError;
use extenddb_storage::operations::ConnectionParts;
use extenddb_storage::pg_bootstrap::{
    admin_bootstrap_result, admin_name_for, admin_password_from_env, app_connection_url,
    catalog_connection_url, check_app_password, create_database_sql, create_user_sql, database_exists,
    drop_database_sqls, existing_admin_result, grant_app_role_sql, resolve_bootstrap_config,
};

fn args(a: &[&str]) -> Vec<String> {
    std::iter::once("extenddb").chain(a.iter().copied()).map(String::from).collect()
}

fn file() -> ConnectionParts {
    ConnectionParts {
        host: "db.internal".into(),
        port: 6432,
        user: "app".into(),
        password: "pw".into(),
        database: "prod_catalog".into(),
    }
}

#[test]
fn defaults_apply_without_a_config_file() {
    let c = resolve_bootstrap_config(&args(&[]), None, Some("alice")).unwrap();
    assert_eq!(c.host, "localhost");
    assert_eq!(c.port, 5432);
    assert_eq!(c.admin_user, "alice");
    assert_eq!(c.admin_password, None);
    assert_eq!(c.app_user, "extenddb");
    assert_eq!(c.app_password, "extenddb-local-dev");
    assert_eq!(c.catalog_db, "extenddb_catalog");
    assert_eq!(c.data_db, "extenddb");
    let c = resolve_bootstrap_config(&args(&[]), None, None).unwrap();
    assert_eq!(c.admin_user, "postgres");
}

#[test]
fn command_line_values_win() {
    let c = resolve_bootstrap_config(
        &args(&["--pg-host", "h", "--pg-port", "7000", "--pg-user", "root", "--pg-pass", "s",
            "--catalog-db", "mine", "--data-db", "d", "--extenddb-user", "u", "--extenddb-pass", "p"]),
        None,
        Some("alice"),
    )
    .unwrap();
    assert_eq!((c.host.as_str(), c.port, c.admin_user.as_str()), ("h", 7000, "root"));
    assert_eq!(c.admin_password.as_deref(), Some("s"));
    assert_eq!((c.catalog_db.as_str(), c.data_db.as_str()), ("mine", "d"));
    assert_eq!((c.app_user.as_str(), c.app_password.as_str()), ("u", "p"));
}

#[test]
fn an_unreadable_port_is_ignored() {
    let c = resolve_bootstrap_config(&args(&["--pg-port", "99999"]), None, None).unwrap();
    assert_eq!(c.port, 5432);
}

#[test]
fn config_file_values_are_used_and_the_data_db_follows_the_catalog() {
    let c = resolve_bootstrap_config(&args(&["--pg-host", "db.internal"]), Some(&file()), None).unwrap();
    assert_eq!((c.host.as_str(), c.port), ("db.internal", 6432));
    assert_eq!(c.catalog_db, "prod_catalog");
    assert_eq!(c.data_db, "prod");
}

#[test]
fn conflicts_with_the_config_file_are_reported_in_order() {
    let err = resolve_bootstrap_config(&args(&["--pg-port", "1", "--pg-host", "x"]), Some(&file()), None).unwrap_err();
    assert_eq!(err.message(), "--pg-host value 'x' conflicts with config file value 'db.internal'");
    let err = resolve_bootstrap_config(&args(&["--pg-port", "1"]), Some(&file()), None).unwrap_err();
    assert_eq!(err.message(), "--pg-port value '1' conflicts with config file value '6432'");
    let err = resolve_bootstrap_config(&args(&["--catalog-db", "other"]), Some(&file()), None).unwrap_err();
    assert_eq!(
        err.message(),
        "--catalog-db 'other' conflicts with config file catalog database 'prod_catalog'"
    );
}

fn config() -> BootstrapConfig {
    BootstrapConfig {
        host: "h".into(),
        port: 5432,
        admin_user: "postgres".into(),
        admin_password: None,
        app_user: "app".into(),
        app_password: "secret".into(),
        catalog_db: "x_catalog".into(),
        data_db: "x".into(),
    }
}

#[test]
fn connection_urls() {
    assert_eq!(app_connection_url(&config(), "x"), "postgresql://app:secret@h:5432/x");
    assert_eq!(catalog_connection_url(&config()), "postgresql://app:secret@h:5432/x_catalog");
}

#[test]
fn provisioning_statements() {
    assert_eq!(create_user_sql("app", "pw"), "CREATE USER \"app\" WITH PASSWORD 'pw'");
    assert_eq!(grant_app_role_sql("app", "postgres").unwrap(), "GRANT \"app\" TO \"postgres\"");
    assert_eq!(grant_app_role_sql("same", "same"), None);
    assert_eq!(create_database_sql("db", "app"), "CREATE DATABASE \"db\" OWNER \"app\"");
    assert_eq!(
        drop_database_sqls("d", "c"),
        vec!["DROP DATABASE IF EXISTS \"d\"".to_string(), "DROP DATABASE IF EXISTS \"c\"".to_string()]
    );
    assert_eq!(drop_database_sqls("", "c"), vec!["DROP DATABASE IF EXISTS \"c\"".to_string()]);
    match database_exists("db") {
        OpError::AlreadyExists(m) => {
            assert_eq!(m, "Database 'db' already exists. Run 'destroy' first, then re-run 'init'.")
        }
        other => panic!("unexpected {other:?}"),
    }
}

#[test]
fn application_passwords_are_screened() {
    assert!(check_app_password("Abc-123_.,!@#$%^&*()+=~` ").is_ok());
    for bad in ["a'b", "a\\b", "a;b", "a\nb", "é"] {
        match check_app_password(bad) {
            Err(OpError::Validation(m)) => assert_eq!(
                m,
                "Application password contains disallowed characters. Only ASCII letters, digits, and -_.,!@#$%^&*()+=~` space are permitted."
            ),
            other => panic!("{bad:?} gave {other:?}"),
        }
    }
}

#[test]
fn admin_bootstrap_choices() {
    assert_eq!(admin_name_for(None), "admin");
    assert_eq!(admin_name_for(Some("")), "admin");
    assert_eq!(admin_name_for(Some("root")), "root");
    assert_eq!(admin_password_from_env(Some("")), None);
    assert_eq!(admin_password_from_env(Some("p")), Some("p".to_string()));
    let r = admin_bootstrap_result("admin".into(), "gen".into(), false);
    assert_eq!(r.generated_password.as_deref(), Some("gen"));
    assert!(!r.already_existed && !r.from_env);
    let r = admin_bootstrap_result("admin".into(), "env".into(), true);
    assert_eq!(r.generated_password, None);
    let r = existing_admin_result("admin".into());
    assert!(r.already_existed && r.generated_password.is_none());
}
