use trso_migrate::machine::{
    base_name, ensure_table_sql, load_applied_sql, record_applied_sql, Action, Event, Machine,
    RunError,
};

fn s(x: &str) -> String {
    x.to_string()
}

fn list(v: &[&str]) -> Vec<String> {
    v.iter().map(|x| x.to_string()).collect()
}

/// Drives one whole run against a simulated directory and database.
/// Every file's content is derived from its path; executing a content
/// that contains `fail_on` errors out. Returns the run's outcome and the
/// trace of performed actions.
fn drive(
    paths: &[&str],
    ledger: &[&str],
    fail_on: Option<&str>,
) -> (Result<Vec<String>, RunError>, Vec<String>) {
    let mut m = Machine::new();
    let mut trace: Vec<String> = Vec::new();
    loop {
        let a = match m.next_action() {
            Some(a) => a,
            None => break,
        };
        let ev = match a {
            Action::ListDir => {
                trace.push(s("list"));
                Event::Listed(Ok(list(paths)))
            }
            Action::EnsureTable => {
                trace.push(s("ensure"));
                Event::TableEnsured(Ok(()))
            }
            Action::LoadApplied => {
                trace.push(s("load"));
                Event::AppliedLoaded(Ok(list(ledger)))
            }
            Action::ReadFile { path } => {
                trace.push(format!("read {}", path));
                Event::FileRead(Ok(format!("sql of {}", path)))
            }
            Action::BeginTx => {
                trace.push(s("begin"));
                Event::TxBegun(Ok(()))
            }
            Action::ExecBatch { content } => {
                trace.push(format!("exec {}", content));
                match fail_on {
                    Some(bad) if content.contains(bad) => {
                        Event::BatchExecuted(Err(s("syntax error")))
                    }
                    _ => Event::BatchExecuted(Ok(())),
                }
            }
            Action::RecordApplied { name } => {
                trace.push(format!("record {}", name));
                Event::Recorded(Ok(()))
            }
            Action::CommitTx => {
                trace.push(s("commit"));
                Event::Committed(Ok(()))
            }
            Action::RollbackTx => {
                trace.push(s("rollback"));
                Event::RolledBack(Ok(()))
            }
        };
        m = m.step(ev);
    }
    (m.into_outcome(), trace)
}

#[test]
fn empty_directory_succeeds_with_nothing_applied() {
    let (outcome, trace) = drive(&[], &[], None);
    assert_eq!(outcome.unwrap(), Vec::<String>::new());
    assert_eq!(trace, vec![s("list"), s("ensure"), s("load")]);
}

#[test]
fn applies_in_lexicographic_order_not_listing_order() {
    let paths = &["m/2-b.sql", "m/10-a.sql", "m/1-c.sql"];
    let (outcome, _) = drive(paths, &[], None);
    // Lexicographically "m/1-c.sql" < "m/10-a.sql" < "m/2-b.sql".
    assert_eq!(outcome.unwrap(), list(&["1-c.sql", "10-a.sql", "2-b.sql"]));
}

#[test]
fn second_run_applies_nothing() {
    let paths = &["m/001-a.sql", "m/002-b.sql"];
    let (outcome, _) = drive(paths, &[], None);
    let done = outcome.unwrap();
    assert_eq!(done, list(&["001-a.sql", "002-b.sql"]));

    let ledger: Vec<&str> = done.iter().map(|x| x.as_str()).collect();
    let (outcome2, trace2) = drive(paths, &ledger, None);
    assert_eq!(outcome2.unwrap(), Vec::<String>::new());
    assert_eq!(trace2, vec![s("list"), s("ensure"), s("load")]);
    assert!(!trace2.iter().any(|t| t.starts_with("read")
        || t.starts_with("exec")
        || t.starts_with("record")
        || t == "begin"
        || t == "commit"));
}

#[test]
fn failing_file_rolls_back_and_is_not_recorded() {
    let paths = &["m/1-ok.sql", "m/2-fail.sql", "m/3-ok.sql"];
    let (outcome, trace) = drive(paths, &[], Some("2-fail"));
    match outcome {
        Err(RunError::DatabaseError { name, detail }) => {
            assert_eq!(name.unwrap(), "2-fail.sql");
            assert_eq!(detail, "syntax error");
        }
        _ => panic!("expected a DatabaseError naming the failing file"),
    }
    // The failing file's execution is followed by a rollback, and its
    // ledger row is never inserted.
    let i = trace
        .iter()
        .position(|t| t == "exec sql of m/2-fail.sql")
        .unwrap();
    assert_eq!(trace[i + 1], "rollback");
    assert!(!trace.contains(&s("record 2-fail.sql")));
}

#[test]
fn fail_fast_commits_earlier_files_and_skips_later_ones() {
    let paths = &["m/1-ok.sql", "m/2-fail.sql", "m/3-ok.sql"];
    let (outcome, trace) = drive(paths, &[], Some("2-fail"));
    assert!(outcome.is_err());
    // The first file went through its whole cycle and was ledgered.
    assert!(trace.contains(&s("record 1-ok.sql")));
    assert!(trace.contains(&s("commit")));
    // The third file was never even read.
    assert!(!trace.iter().any(|t| t.contains("3-ok")));
}

#[test]
fn resume_after_failure_applies_only_the_rest() {
    // After the fail-fast scenario the ledger holds only the first file;
    // a rerun (with the failing file fixed) applies the second and third.
    let paths = &["m/1-ok.sql", "m/2-fail.sql", "m/3-ok.sql"];
    let (outcome, trace) = drive(paths, &["1-ok.sql"], None);
    assert_eq!(outcome.unwrap(), list(&["2-fail.sql", "3-ok.sql"]));
    assert!(!trace.iter().any(|t| t.starts_with("read m/1-ok")));
}

#[test]
fn listing_failure_aborts_before_any_database_work() {
    let mut m = Machine::new();
    assert!(matches!(m.next_action(), Some(Action::ListDir)));
    m = m.step(Event::Listed(Err(s("permission denied"))));
    assert!(m.next_action().is_none());
    match m.into_outcome() {
        Err(RunError::IOError { name, detail }) => {
            assert!(name.is_none());
            assert_eq!(detail, "permission denied");
        }
        _ => panic!("expected an IOError"),
    }
}

#[test]
fn unreadable_file_aborts_with_its_identifier() {
    let mut m = Machine::new();
    m = m.step(Event::Listed(Ok(list(&["m/1-a.sql"]))));
    m = m.step(Event::TableEnsured(Ok(())));
    m = m.step(Event::AppliedLoaded(Ok(vec![])));
    assert!(matches!(m.next_action(), Some(Action::ReadFile { .. })));
    m = m.step(Event::FileRead(Err(s("is a directory"))));
    match m.into_outcome() {
        Err(RunError::IOError { name, detail }) => {
            assert_eq!(name.unwrap(), "1-a.sql");
            assert_eq!(detail, "is a directory");
        }
        _ => panic!("expected an IOError naming the file"),
    }
}

#[test]
fn failed_transaction_begin_is_fatal() {
    let mut m = Machine::new();
    m = m.step(Event::Listed(Ok(list(&["m/1-a.sql"]))));
    m = m.step(Event::TableEnsured(Ok(())));
    m = m.step(Event::AppliedLoaded(Ok(vec![])));
    m = m.step(Event::FileRead(Ok(s("CREATE TABLE t (x)"))));
    assert!(matches!(m.next_action(), Some(Action::BeginTx)));
    m = m.step(Event::TxBegun(Err(s("connection lost"))));
    match m.into_outcome() {
        Err(RunError::DatabaseError { name, .. }) => assert_eq!(name.unwrap(), "1-a.sql"),
        _ => panic!("expected a DatabaseError"),
    }
}

#[test]
fn failed_ledger_insert_rolls_back() {
    let mut m = Machine::new();
    m = m.step(Event::Listed(Ok(list(&["m/1-a.sql"]))));
    m = m.step(Event::TableEnsured(Ok(())));
    m = m.step(Event::AppliedLoaded(Ok(vec![])));
    m = m.step(Event::FileRead(Ok(s("CREATE TABLE t (x)"))));
    m = m.step(Event::TxBegun(Ok(())));
    m = m.step(Event::BatchExecuted(Ok(())));
    assert!(matches!(m.next_action(), Some(Action::RecordApplied { .. })));
    m = m.step(Event::Recorded(Err(s("constraint violated"))));
    assert!(matches!(m.next_action(), Some(Action::RollbackTx)));
    m = m.step(Event::RolledBack(Ok(())));
    match m.into_outcome() {
        Err(RunError::DatabaseError { name, detail }) => {
            assert_eq!(name.unwrap(), "1-a.sql");
            assert_eq!(detail, "constraint violated");
        }
        _ => panic!("expected a DatabaseError"),
    }
}

#[test]
fn files_without_identifier_are_skipped() {
    let (outcome, trace) = drive(&["m/", "m/1-a.sql"], &[], None);
    assert_eq!(outcome.unwrap(), list(&["1-a.sql"]));
    assert!(!trace.iter().any(|t| t == "read m/"));
}

#[test]
fn base_name_takes_the_path_tail() {
    assert_eq!(base_name("dir/a.sql").unwrap(), "a.sql");
    assert_eq!(base_name("a.sql").unwrap(), "a.sql");
    assert_eq!(base_name("x/y/z.sql").unwrap(), "z.sql");
    assert!(base_name("dir/").is_none());
    assert!(base_name("").is_none());
    assert!(base_name(".").is_none());
    assert!(base_name("dir/..").is_none());
}

#[test]
fn ledger_sql_texts() {
    assert_eq!(
        ensure_table_sql(),
        "CREATE TABLE IF NOT EXISTS migrations (id INTEGER PRIMARY KEY AUTOINCREMENT, file_name TEXT)"
    );
    assert_eq!(load_applied_sql(), "SELECT file_name FROM migrations");
    assert_eq!(record_applied_sql(), "INSERT INTO migrations (file_name) VALUES (?1)");
}
