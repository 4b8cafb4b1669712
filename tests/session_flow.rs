use r_db_manager::execution::ActionOutcome;
use r_db_manager::names::TableName;
use r_db_manager::session::{Command, Conclusion, Phase, Request, Session};

fn strings(items: &[&str]) -> Vec<String> {
    items.iter().map(|s| s.to_string()).collect()
}

fn names(tables: &[TableName]) -> Vec<String> {
    tables.iter().map(|t| t.as_str().to_string()).collect()
}

fn expect_confirm(r: Request) -> Vec<String> {
    match r {
        Request::Confirm { tables } => names(&tables),
        other => panic!("expected a confirmation, got {:?}", other),
    }
}

fn expect_execute(r: Request) -> Vec<String> {
    match r {
        Request::Execute { statements } => statements,
        other => panic!("expected statements, got {:?}", other),
    }
}

fn apply_until_answer(existing: &[&str], files: &[&str]) -> (Session, Vec<String>) {
    let (mut s, r) = Session::start(Command::Apply { name: None });
    assert!(matches!(r, Request::QueryTables));
    let r = s.on_tables(&strings(existing));
    assert!(matches!(r, Request::ListDefinitions));
    let r = s.on_listing(&strings(files));
    let listed = expect_confirm(r);
    (s, listed)
}

#[test]
fn apply_creates_only_missing_tables() {
    let (mut s, listed) =
        apply_until_answer(&["players"], &["players.sql", "items.sql", "spells.sql"]);
    assert_eq!(listed, strings(&["items", "spells"]));
    let r = s.on_answer("yes\n");
    let requested = match r {
        Request::ReadDefinitions { tables } => names(&tables),
        other => panic!("expected definitions to read, got {:?}", other),
    };
    assert_eq!(requested, strings(&["items", "spells"]));
    let ddls = strings(&["CREATE TABLE items (id INT);", "CREATE TABLE spells (id INT);"]);
    let statements = expect_execute(s.on_definitions(&ddls));
    assert_eq!(statements, ddls);
    assert!(s.awaits(0) && s.awaits(1) && !s.awaits(2));
    assert!(matches!(s.on_completed(1, Ok(())), Request::Wait));
    assert!(!s.awaits(1));
    let r = s.on_completed(0, Ok(()));
    assert!(matches!(r, Request::Finish { conclusion: Conclusion::Done }));
    assert_eq!(s.phase(), Phase::Finished);
    let done: Vec<String> = s
        .outcomes()
        .iter()
        .map(|o| match o {
            ActionOutcome::Success { table } => table.as_str().to_string(),
            ActionOutcome::Failure { .. } => panic!("unexpected failure"),
        })
        .collect();
    assert_eq!(done, strings(&["spells", "items"]));
}

#[test]
fn remove_lists_all_and_decline_aborts() {
    let (mut s, r) = Session::start(Command::Remove { name: None });
    assert!(matches!(r, Request::QueryTables));
    let listed = expect_confirm(s.on_tables(&strings(&["players", "items"])));
    assert_eq!(listed, strings(&["players", "items"]));
    let r = s.on_answer("no\n");
    assert!(matches!(r, Request::Finish { conclusion: Conclusion::Aborted }));
    assert_eq!(s.phase(), Phase::Finished);
    assert!(s.outcomes().is_empty());
    assert!(!s.awaits(0));
}

#[test]
fn remove_confirmed_runs_guarded_drops() {
    let (mut s, _) = Session::start(Command::Remove { name: None });
    expect_confirm(s.on_tables(&strings(&["players", "items"])));
    let statements = expect_execute(s.on_answer("Y"));
    assert_eq!(
        statements,
        strings(&["DROP TABLE IF EXISTS players;", "DROP TABLE IF EXISTS items;"])
    );
    assert!(matches!(s.on_completed(0, Ok(())), Request::Wait));
    assert!(matches!(
        s.on_completed(1, Ok(())),
        Request::Finish { conclusion: Conclusion::Done }
    ));
}

#[test]
fn malformed_definition_fails_without_stopping_siblings() {
    let (mut s, listed) = apply_until_answer(&[], &["bad.sql", "good.sql"]);
    assert_eq!(listed, strings(&["bad", "good"]));
    assert!(matches!(s.on_answer("yes"), Request::ReadDefinitions { .. }));
    assert_eq!(s.phase(), Phase::AwaitingDefinitions);
    let ddls = strings(&["CREATE TABL bad (", "CREATE TABLE good (id INT);"]);
    let statements = expect_execute(s.on_definitions(&ddls));
    assert_eq!(statements.len(), 2);
    assert!(matches!(
        s.on_completed(0, Err("syntax error near 'TABL'".to_string())),
        Request::Wait
    ));
    let r = s.on_completed(1, Ok(()));
    match r {
        Request::Finish { conclusion: Conclusion::Failed { failures } } => {
            assert_eq!(failures.len(), 1);
            match &failures[0] {
                ActionOutcome::Failure { table, cause } => {
                    assert_eq!(table.as_str(), "bad");
                    assert_eq!(cause, "syntax error near 'TABL'");
                }
                other => panic!("expected a failure, got {:?}", other),
            }
        }
        other => panic!("expected an aggregate failure, got {:?}", other),
    }
    assert_eq!(s.outcomes().len(), 2);
    assert!(matches!(&s.outcomes()[1], ActionOutcome::Success { table } if table.as_str() == "good"));
}

#[test]
fn second_apply_has_nothing_to_do() {
    let (mut s, r) = Session::start(Command::Apply { name: None });
    assert!(matches!(r, Request::QueryTables));
    s.on_tables(&strings(&["players", "items", "spells"]));
    let r = s.on_listing(&strings(&["players.sql", "items.sql", "spells.sql"]));
    assert!(matches!(r, Request::Finish { conclusion: Conclusion::NothingToDo }));
}

#[test]
fn remove_on_empty_database_has_nothing_to_do() {
    let (mut s, _) = Session::start(Command::Remove { name: None });
    let r = s.on_tables(&Vec::new());
    assert!(matches!(r, Request::Finish { conclusion: Conclusion::NothingToDo }));
}

#[test]
fn named_apply_skips_confirmation() {
    let (mut s, r) = Session::start(Command::Apply { name: Some("items".to_string()) });
    let requested = match r {
        Request::ReadDefinitions { tables } => names(&tables),
        other => panic!("expected definitions to read, got {:?}", other),
    };
    assert_eq!(requested, strings(&["items"]));
    let statements = expect_execute(s.on_definitions(&strings(&["CREATE TABLE items (id INT);"])));
    assert_eq!(statements, strings(&["CREATE TABLE items (id INT);"]));
    assert!(matches!(
        s.on_completed(0, Ok(())),
        Request::Finish { conclusion: Conclusion::Done }
    ));
}

#[test]
fn named_remove_runs_one_guarded_drop() {
    let (mut s, r) = Session::start(Command::Remove { name: Some("spells".to_string()) });
    assert_eq!(expect_execute(r), strings(&["DROP TABLE IF EXISTS spells;"]));
    assert_eq!(s.phase(), Phase::Running);
    let r = s.on_completed(0, Err("lock wait timeout".to_string()));
    assert!(matches!(r, Request::Finish { conclusion: Conclusion::Failed { .. } }));
}

#[test]
fn named_target_with_unsafe_name_is_refused() {
    let (s, r) = Session::start(Command::Remove { name: Some("x; DROP DATABASE db".to_string()) });
    assert!(matches!(r, Request::Finish { conclusion: Conclusion::Refused { .. } }));
    assert_eq!(s.phase(), Phase::Finished);
    let (_, r) = Session::start(Command::Apply { name: Some("../secrets".to_string()) });
    assert!(matches!(r, Request::Finish { conclusion: Conclusion::Refused { .. } }));
}

#[test]
fn listing_skips_other_files_and_refuses_bad_stems() {
    let (_, listed) = apply_until_answer(&[], &["README.md", "items.sql", "notes.txt", ".sql"]);
    assert_eq!(listed, strings(&["items"]));
    let (mut s, _) = Session::start(Command::Apply { name: None });
    s.on_tables(&Vec::new());
    let r = s.on_listing(&strings(&["items.sql", "bad name.sql"]));
    assert!(matches!(r, Request::Finish { conclusion: Conclusion::Refused { .. } }));
}

#[test]
fn catalog_with_unsafe_name_is_refused() {
    let (mut s, _) = Session::start(Command::Remove { name: None });
    let r = s.on_tables(&strings(&["players", "odd-name"]));
    assert!(matches!(r, Request::Finish { conclusion: Conclusion::Refused { .. } }));
}

#[test]
fn empty_answer_declines() {
    let (mut s, _) = apply_until_answer(&[], &["items.sql"]);
    assert!(matches!(s.on_answer(""), Request::Finish { conclusion: Conclusion::Aborted }));
}
