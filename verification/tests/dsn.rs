use trso_migrate::dsn::parse_dsn;

#[test]
fn parse_dsn_extracts_url_and_token() {
    let dsn = "libsql://example.turso.io?authToken=abc123&project=myproj";
    let (url, token) = parse_dsn(dsn).unwrap();

    assert_eq!(url, "libsql://example.turso.io");
    assert_eq!(token, "abc123");
}

#[test]
fn parse_dsn_errors_when_missing_token() {
    let err = parse_dsn("libsql://example.turso.io").unwrap_err();
    assert!(err.contains("query"));

    let err = parse_dsn("libsql://example.turso.io?project=myproj").unwrap_err();
    assert!(err.contains("authToken"));
}

#[test]
fn parse_dsn_rejects_empty_base() {
    let err = parse_dsn("").unwrap_err();
    assert!(err.contains("database URL"));

    let err = parse_dsn("?authToken=x").unwrap_err();
    assert!(err.contains("database URL"));
}

#[test]
fn parse_dsn_rejects_empty_token_value() {
    let err = parse_dsn("libsql://h?authToken=").unwrap_err();
    assert!(err.contains("cannot be empty"));

    let err = parse_dsn("libsql://h?authToken").unwrap_err();
    assert!(err.contains("cannot be empty"));
}

#[test]
fn parse_dsn_first_auth_token_wins() {
    let (url, token) = parse_dsn("libsql://h?a=1&authToken=first&authToken=second").unwrap();
    assert_eq!(url, "libsql://h");
    assert_eq!(token, "first");
}

#[test]
fn parse_dsn_token_value_may_contain_equals() {
    let (_, token) = parse_dsn("libsql://h?authToken=a=b").unwrap();
    assert_eq!(token, "a=b");
}
