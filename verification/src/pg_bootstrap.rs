//! The decisions of the PostgreSQL bootstrapper: which connection settings
//! win between the command line, the configuration file and the defaults,
//! which statements provision users and databases, and what the admin user
//! bootstrap reports.
use vstd::prelude::*;
use vstd::string::StrSliceExecFns;

use crate::bootstrapper::{
    check_conflict, conflict_text, spec_extract_arg, extract_arg, AdminBootstrapResult, BootstrapConfig,
    ConfigValue,
};
use crate::config::{parse_uint, parse_uint_text, UintParse};
use crate::error::{OpError, StorageError};
use crate::operations::ConnectionParts;
use crate::text::{decimal, push_decimal, str_eq};

verus! {

/// The connection settings of a bootstrap, as plain values: host, port,
/// admin user, admin password, application user, application password,
/// catalog database and data database.
pub type BootstrapView = (
    Seq<char>,
    u16,
    Seq<char>,
    Option<Seq<char>>,
    Seq<char>,
    Seq<char>,
    Seq<char>,
    Seq<char>,
);

impl View for BootstrapConfig {
    type V = BootstrapView;

    open spec fn view(&self) -> BootstrapView {
        (
            self.host@,
            self.port,
            self.admin_user@,
            match self.admin_password {
                Some(p) => Some(p@),
                None => None,
            },
            self.app_user@,
            self.app_password@,
            self.catalog_db@,
            self.data_db@,
        )
    }
}

/// The URL by which the application user connects to `database`.
pub open spec fn spec_connection_url(
    user: Seq<char>,
    password: Seq<char>,
    host: Seq<char>,
    port: u16,
    database: Seq<char>,
) -> Seq<char> {
    "postgresql://"@ + user + ":"@ + password + "@"@ + host + ":"@ + decimal(port as nat) + "/"@ + database
}

/// The URL by which the application user connects to `database`.
pub fn app_connection_url(config: &BootstrapConfig, database: &str) -> (url: String)
    ensures
        url@ == spec_connection_url(config.app_user@, config.app_password@, config.host@, config.port, database@),
{
    let mut url = "postgresql://".to_owned();
    url.append(config.app_user.as_str());
    url.append(":");
    url.append(config.app_password.as_str());
    url.append("@");
    url.append(config.host.as_str());
    url.append(":");
    push_decimal(&mut url, config.port as u64);
    url.append("/");
    url.append(database);
    url
}

/// Return the catalog connection URL (for config file generation).
pub fn catalog_connection_url(config: &BootstrapConfig) -> (url: String)
    ensures
        url@ == spec_connection_url(
            config.app_user@,
            config.app_password@,
            config.host@,
            config.port,
            config.catalog_db@,
        ),
{
    app_connection_url(config, config.catalog_db.as_str())
}

/// The punctuation an application password may hold besides ASCII letters
/// and digits.
pub open spec fn password_punctuation() -> Seq<char> {
    "-_.,!@#$%^&*()+=~` "@
}

/// Whether a character may appear in an application password.
pub open spec fn password_char_allowed(c: char) -> bool {
    ('a' <= c <= 'z') || ('A' <= c <= 'Z') || ('0' <= c <= '9') || password_punctuation().contains(c)
}

/// The text of the error for a password with a disallowed character.
pub open spec fn password_rejected_text() -> Seq<char> {
    "Application password contains disallowed characters. Only ASCII letters, digits, and -_.,!@#$%^&*()+=~` space are permitted."@
}

fn char_allowed(c: char) -> (r: bool)
    ensures
        r == password_char_allowed(c),
{
    let punct = "-_.,!@#$%^&*()+=~` ";
    let p = crate::text::chars_of(punct);
    let mut found = false;
    let mut i: usize = 0;
    while i < p.len()
        invariant
            p@ == punct@,
            i <= p@.len(),
            found <==> exists|j: int| 0 <= j < i && p@[j] == c,
        decreases p@.len() - i,
    {
        if p[i] == c {
            found = true;
        }
        i += 1;
    }
    proof {
        if found {
            let j = choose|j: int| 0 <= j < i && p@[j] == c;
            assert(password_punctuation()[j] == c);
        }
    }
    ('a' <= c && c <= 'z') || ('A' <= c && c <= 'Z') || ('0' <= c && c <= '9') || found
}

/// Checks that the application password holds only characters that may be
/// written into a `CREATE USER` statement.
pub fn check_app_password(password: &str) -> (r: Result<(), OpError>)
    ensures
        r is Ok <==> forall|i: int| 0 <= i < password@.len() ==> password_char_allowed(#[trigger] password@[i]),
        r matches Err(e) ==> e matches OpError::Validation(m) && m@ == password_rejected_text(),
{
    let cs = crate::text::chars_of(password);
    let mut i: usize = 0;
    while i < cs.len()
        invariant
            cs@ == password@,
            i <= cs@.len(),
            forall|j: int| 0 <= j < i ==> password_char_allowed(#[trigger] password@[j]),
        decreases cs@.len() - i,
    {
        if !char_allowed(cs[i]) {
            return Err(OpError::Validation(
                "Application password contains disallowed characters. Only ASCII letters, digits, and -_.,!@#$%^&*()+=~` space are permitted.".to_owned(),
            ));
        }
        i += 1;
    }
    Ok(())
}

/// The statement that creates the application user.
pub fn create_user_sql(user: &str, password: &str) -> (sql: String)
    ensures
        sql@ == "CREATE USER \""@ + user@ + "\" WITH PASSWORD '"@ + password@ + "'"@,
{
    let mut sql = "CREATE USER \"".to_owned();
    sql.append(user);
    sql.append("\" WITH PASSWORD '");
    sql.append(password);
    sql.append("'");
    sql
}

/// The statement that grants the application role to the admin user, or
/// `None` when they are the same user.
pub fn grant_app_role_sql(app_user: &str, admin_user: &str) -> (sql: Option<String>)
    ensures
        match sql {
            None => admin_user@ == app_user@,
            Some(s) => admin_user@ != app_user@ && s@ == "GRANT \""@ + app_user@ + "\" TO \""@ + admin_user@
                + "\""@,
        },
{
    if str_eq(admin_user, app_user) {
        return None;
    }
    let mut sql = "GRANT \"".to_owned();
    sql.append(app_user);
    sql.append("\" TO \"");
    sql.append(admin_user);
    sql.append("\"");
    Some(sql)
}

/// The statement that creates a database owned by `owner`.
pub fn create_database_sql(name: &str, owner: &str) -> (sql: String)
    ensures
        sql@ == "CREATE DATABASE \""@ + name@ + "\" OWNER \""@ + owner@ + "\""@,
{
    let mut sql = "CREATE DATABASE \"".to_owned();
    sql.append(name);
    sql.append("\" OWNER \"");
    sql.append(owner);
    sql.append("\"");
    sql
}

/// The text of the error for a database that already exists.
pub open spec fn database_exists_text(name: Seq<char>) -> Seq<char> {
    "Database '"@ + name + "' already exists. Run 'destroy' first, then re-run 'init'."@
}

/// The error for a database that already exists.
pub fn database_exists(name: &str) -> (e: OpError)
    ensures
        e matches OpError::AlreadyExists(m) && m@ == database_exists_text(name@),
{
    let mut m = "Database '".to_owned();
    m.append(name);
    m.append("' already exists. Run 'destroy' first, then re-run 'init'.");
    OpError::AlreadyExists(m)
}

/// The statements that drop the databases, data database first; an empty
/// data database name is skipped.
pub fn drop_database_sqls(data_db: &str, catalog_db: &str) -> (sqls: Vec<String>)
    ensures
        sqls@.len() == if data_db@.len() == 0 {
            1nat
        } else {
            2nat
        },
        data_db@.len() > 0 ==> sqls@[0]@ == "DROP DATABASE IF EXISTS \""@ + data_db@ + "\""@,
        sqls@[sqls@.len() - 1]@ == "DROP DATABASE IF EXISTS \""@ + catalog_db@ + "\""@,
{
    let mut sqls: Vec<String> = Vec::new();
    if data_db.unicode_len() > 0 {
        let mut s = "DROP DATABASE IF EXISTS \"".to_owned();
        s.append(data_db);
        s.append("\"");
        sqls.push(s);
    }
    let mut s = "DROP DATABASE IF EXISTS \"".to_owned();
    s.append(catalog_db);
    s.append("\"");
    sqls.push(s);
    sqls
}

/// The name of the admin user to bootstrap: the one given in the
/// environment when it is not empty, else `admin`.
pub fn admin_name_for(env_user: Option<&str>) -> (name: String)
    ensures
        name@ == match env_user {
            Some(u) => if u@.len() > 0 {
                u@
            } else {
                "admin"@
            },
            None => "admin"@,
        },
{
    match env_user {
        Some(u) => if u.unicode_len() > 0 {
            u.to_owned()
        } else {
            "admin".to_owned()
        },
        None => "admin".to_owned(),
    }
}

/// The password given in the environment for the admin user, when it is
/// not empty; otherwise one is generated.
pub fn admin_password_from_env(env_password: Option<&str>) -> (p: Option<String>)
    ensures
        match p {
            Some(s) => env_password matches Some(e) && e@.len() > 0 && s@ == e@,
            None => !(env_password matches Some(e) && e@.len() > 0),
        },
{
    match env_password {
        Some(e) => if e.unicode_len() > 0 {
            Some(e.to_owned())
        } else {
            None
        },
        None => None,
    }
}

/// What bootstrapping the admin user reports: a generated password is
/// shown once, a password from the environment never.
pub fn admin_bootstrap_result(username: String, password: String, from_env: bool) -> (r: AdminBootstrapResult)
    ensures
        r.username@ == username@,
        r.generated_password is Some <==> !from_env,
        r.generated_password matches Some(p) ==> p@ == password@,
        !r.already_existed,
        r.from_env == from_env,
{
    AdminBootstrapResult {
        username,
        generated_password: if from_env {
            None
        } else {
            Some(password)
        },
        already_existed: false,
        from_env,
    }
}

/// What bootstrapping reports for an admin user that already exists.
pub fn existing_admin_result(username: String) -> (r: AdminBootstrapResult)
    ensures
        r.username@ == username@,
        r.generated_password is None,
        r.already_existed,
        !r.from_env,
{
    AdminBootstrapResult { username, generated_password: None, already_existed: true, from_env: false }
}

/// The database name with a trailing `_catalog` removed, if it has one.
pub open spec fn without_catalog_suffix(s: Seq<char>) -> Seq<char> {
    if s.len() >= 8 && s.subrange(s.len() - 8, s.len() as int) == "_catalog"@ {
        s.subrange(0, s.len() - 8)
    } else {
        s
    }
}

fn strip_catalog_suffix(s: &str) -> (r: String)
    ensures
        r@ == without_catalog_suffix(s@),
{
    let n = s.unicode_len();
    proof {
        reveal_strlit("_catalog");
    }
    if n >= 8 {
        let tail = s.substring_char(n - 8, n);
        if str_eq(tail, "_catalog") {
            return s.substring_char(0, n - 8).to_owned();
        }
    }
    s.to_owned()
}

/// A port given on the command line, when it reads as a `u16`.
pub open spec fn port_arg(args: Seq<Seq<char>>) -> Option<u16> {
    match spec_extract_arg(args, "--pg-port"@) {
        Some(s) => match parse_uint(s, 65535) {
            UintParse::Value(v) => Some(v as u16),
            _ => None,
        },
        None => None,
    }
}

/// The text of the error for a catalog database that differs from the
/// configuration file's.
pub open spec fn catalog_conflict_text(cli: Seq<char>, file: Seq<char>) -> Seq<char> {
    "--catalog-db '"@ + cli + "' conflicts with config file catalog database '"@ + file + "'"@
}

/// The first conflict between the command line and the configuration file,
/// checked in the order host, port, application user, application
/// password, catalog database.
pub open spec fn first_conflict(args: Seq<Seq<char>>, file: (Seq<char>, u16, Seq<char>, Seq<char>, Seq<char>)) -> Option<
    Seq<char>,
> {
    let (host, port, user, password, database) = file;
    let h = spec_extract_arg(args, "--pg-host"@);
    let p = port_arg(args);
    let u = spec_extract_arg(args, "--extenddb-user"@);
    let w = spec_extract_arg(args, "--extenddb-pass"@);
    let c = spec_extract_arg(args, "--catalog-db"@);
    if h is Some && h.unwrap() != host {
        Some(conflict_text("--pg-host"@, h.unwrap(), host))
    } else if p is Some && p.unwrap() != port {
        Some(conflict_text("--pg-port"@, decimal(p.unwrap() as nat), decimal(port as nat)))
    } else if u is Some && u.unwrap() != user {
        Some(conflict_text("--extenddb-user"@, u.unwrap(), user))
    } else if w is Some && w.unwrap() != password {
        Some(conflict_text("--extenddb-pass"@, w.unwrap(), password))
    } else if c is Some && c.unwrap() != database {
        Some(catalog_conflict_text(c.unwrap(), database))
    } else {
        None
    }
}

/// A value given on the command line, else the fallback.
pub open spec fn or_else(v: Option<Seq<char>>, fallback: Seq<char>) -> Seq<char> {
    match v {
        Some(x) => x,
        None => fallback,
    }
}

/// The settings a bootstrap uses: each command-line value wins over the
/// configuration file's (or, without a file, over the defaults); the admin
/// user defaults to the `USER` of the environment, else `postgres`; the
/// data database defaults to the catalog database without its `_catalog`
/// suffix.
pub open spec fn resolved_settings(
    args: Seq<Seq<char>>,
    file: Option<(Seq<char>, u16, Seq<char>, Seq<char>, Seq<char>)>,
    env_user: Option<Seq<char>>,
) -> BootstrapView {
    let (host, port, user, password, database) = match file {
        Some(f) => f,
        None => ("localhost"@, 5432u16, "extenddb"@, "extenddb-local-dev"@, "extenddb_catalog"@),
    };
    let catalog = or_else(spec_extract_arg(args, "--catalog-db"@), database);
    (
        or_else(spec_extract_arg(args, "--pg-host"@), host),
        match port_arg(args) {
            Some(p) => p,
            None => port,
        },
        or_else(spec_extract_arg(args, "--pg-user"@), or_else(env_user, "postgres"@)),
        spec_extract_arg(args, "--pg-pass"@),
        or_else(spec_extract_arg(args, "--extenddb-user"@), user),
        or_else(spec_extract_arg(args, "--extenddb-pass"@), password),
        catalog,
        or_else(spec_extract_arg(args, "--data-db"@), without_catalog_suffix(catalog)),
    )
}

/// The view of the connection settings read from a configuration file.
pub open spec fn parts_view(p: Option<&ConnectionParts>) -> Option<(Seq<char>, u16, Seq<char>, Seq<char>, Seq<char>)> {
    match p {
        Some(c) => Some(c@),
        None => None,
    }
}

fn or_default(v: Option<String>, fallback: &str) -> (r: String)
    ensures
        r@ == or_else(
            match v {
                Some(x) => Some(x@),
                None => None,
            },
            fallback@,
        ),
{
    match v {
        Some(x) => x,
        None => fallback.to_owned(),
    }
}

fn str_args(args: &[String], flag: &str) -> (r: Option<String>)
    ensures
        match r {
            Some(v) => spec_extract_arg(args@.map_values(|a: String| a@), flag@) == Some(v@),
            None => spec_extract_arg(args@.map_values(|a: String| a@), flag@) is None,
        },
{
    extract_arg(args, flag)
}

/// Resolves the bootstrap settings from the command-line arguments, the
/// connection settings of the configuration file (`None` when there is no
/// file) and the `USER` of the environment. A command-line value that
/// differs from the file's is an error.
pub fn resolve_bootstrap_config(cli_args: &[String], file: Option<&ConnectionParts>, env_user: Option<&str>) -> (r:
    Result<BootstrapConfig, StorageError>)
    ensures
        match r {
            Ok(c) => {
                &&& (file matches Some(f) ==> first_conflict(
                    cli_args@.map_values(|a: String| a@),
                    f@,
                ) is None)
                &&& c@ == resolved_settings(
                    cli_args@.map_values(|a: String| a@),
                    parts_view(file),
                    match env_user {
                        Some(u) => Some(u@),
                        None => None,
                    },
                )
            },
            Err(e) => file matches Some(f) && first_conflict(cli_args@.map_values(|a: String| a@), f@)
                matches Some(m) && e matches StorageError::Internal(x) && x@ == m,
        },
{
    let ghost args = cli_args@.map_values(|a: String| a@);
    let pg_host = str_args(cli_args, "--pg-host");
    let pg_port: Option<u16> = match str_args(cli_args, "--pg-port") {
        Some(s) => match parse_uint_text(s.as_str(), 65535) {
            Ok(v) => Some(v as u16),
            Err(_) => None,
        },
        None => None,
    };
    assert(pg_port == port_arg(args));
    let pg_user = str_args(cli_args, "--pg-user");
    let pg_pass = str_args(cli_args, "--pg-pass");
    let data_db = str_args(cli_args, "--data-db");
    let catalog_db = str_args(cli_args, "--catalog-db");
    let app_user_arg = str_args(cli_args, "--extenddb-user");
    let app_pass_arg = str_args(cli_args, "--extenddb-pass");
    let (host, port, user, password, database): (String, u16, String, String, String) = match file {
        Some(parts) => {
            check_conflict(pg_host.as_ref(), &parts.host, "--pg-host")?;
            check_conflict(pg_port.as_ref(), &parts.port, "--pg-port")?;
            check_conflict(app_user_arg.as_ref(), &parts.user, "--extenddb-user")?;
            check_conflict(app_pass_arg.as_ref(), &parts.password, "--extenddb-pass")?;
            if let Some(cli_catalog) = &catalog_db {
                if !str_eq(cli_catalog.as_str(), parts.database.as_str()) {
                    let mut m = "--catalog-db '".to_owned();
                    m.append(cli_catalog.as_str());
                    m.append("' conflicts with config file catalog database '");
                    m.append(parts.database.as_str());
                    m.append("'");
                    return Err(StorageError::Internal(m));
                }
            }
            (parts.host.clone(), parts.port, parts.user.clone(), parts.password.clone(), parts.database.clone())
        },
        None => (
            "localhost".to_owned(),
            5432,
            "extenddb".to_owned(),
            "extenddb-local-dev".to_owned(),
            "extenddb_catalog".to_owned(),
        ),
    };
    let admin_fallback = match env_user {
        Some(u) => u.to_owned(),
        None => "postgres".to_owned(),
    };
    let resolved_catalog = or_default(catalog_db, database.as_str());
    let data_fallback = strip_catalog_suffix(resolved_catalog.as_str());
    let config = BootstrapConfig {
        host: or_default(pg_host, host.as_str()),
        port: match pg_port {
            Some(p) => p,
            None => port,
        },
        admin_user: or_default(pg_user, admin_fallback.as_str()),
        admin_password: pg_pass,
        app_user: or_default(app_user_arg, user.as_str()),
        app_password: or_default(app_pass_arg, password.as_str()),
        catalog_db: resolved_catalog,
        data_db: or_default(data_db, data_fallback.as_str()),
    };
    Ok(config)
}

} // verus!
