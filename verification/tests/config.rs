use trso_migrate::config::{resolve_config, ConfigError};

fn s(x: &str) -> String {
    x.to_string()
}

#[test]
fn dsn_wins_and_implies_remote() {
    let c = resolve_config(
        Some(s("libsql://db.turso.io?authToken=tok")),
        Some(s("true")),
        Some(s("ignored")),
        None,
        Some(s("/srv/migrations")),
        s("/cwd"),
    )
    .unwrap();
    assert_eq!(c.url_or_path, "libsql://db.turso.io");
    assert!(!c.local);
    assert_eq!(c.token, "tok");
    assert_eq!(c.migrations_path, "/srv/migrations");
}

#[test]
fn bad_dsn_is_reported() {
    match resolve_config(Some(s("libsql://db")), None, None, None, None, s("/c")) {
        Err(ConfigError::BadDsn(m)) => assert!(m.contains("query")),
        _ => panic!("expected a BadDsn error"),
    }
}

#[test]
fn local_true_needs_no_token() {
    let c = resolve_config(None, Some(s("true")), Some(s("local.db")), None, None, s("/work"))
        .unwrap();
    assert!(c.local);
    assert_eq!(c.url_or_path, "local.db");
    assert_eq!(c.token, "");
    assert_eq!(c.migrations_path, "/work/migrations");
}

#[test]
fn local_defaults_to_false() {
    let c = resolve_config(
        None,
        None,
        Some(s("libsql://db")),
        Some(s("tok")),
        None,
        s("/work"),
    )
    .unwrap();
    assert!(!c.local);
    assert_eq!(c.token, "tok");
}

#[test]
fn local_garbage_is_rejected() {
    match resolve_config(None, Some(s("yes")), Some(s("u")), Some(s("t")), None, s("/c")) {
        Err(ConfigError::BadLocal) => {}
        _ => panic!("expected a BadLocal error"),
    }
}

#[test]
fn missing_url_is_rejected() {
    match resolve_config(None, None, None, Some(s("t")), None, s("/c")) {
        Err(ConfigError::MissingUrl) => {}
        _ => panic!("expected a MissingUrl error"),
    }
}

#[test]
fn remote_needs_token() {
    match resolve_config(None, Some(s("false")), Some(s("libsql://db")), None, None, s("/c")) {
        Err(ConfigError::MissingToken) => {}
        _ => panic!("expected a MissingToken error"),
    }
}
