use r_db_manager::confirm::affirmative;
use r_db_manager::execution::{ActionOutcome, Execution, PendingAction};
use r_db_manager::names::{is_valid_table_name, NameError, TableName};
use r_db_manager::reconcile::{contains_name, definition_names, parse_names, to_create, to_drop};
use r_db_manager::statements::{definition_file_name, definition_stem, drop_statement};

fn table(s: &str) -> TableName {
    TableName::parse(s).unwrap()
}

fn tables(items: &[&str]) -> Vec<TableName> {
    items.iter().map(|s| table(s)).collect()
}

fn texts(ts: &[TableName]) -> Vec<String> {
    ts.iter().map(|t| t.as_str().to_string()).collect()
}

fn strings(items: &[&str]) -> Vec<String> {
    items.iter().map(|s| s.to_string()).collect()
}

#[test]
fn table_names_follow_the_allow_list() {
    assert!(is_valid_table_name("players"));
    assert!(is_valid_table_name("Item_2"));
    assert!(!is_valid_table_name(""));
    assert!(!is_valid_table_name("a b"));
    assert!(!is_valid_table_name("x;DROP"));
    assert!(!is_valid_table_name("tabl\u{e9}"));
    assert_eq!(table("spells").as_str(), "spells");
    assert_eq!(
        TableName::parse("a-b"),
        Err(NameError::Invalid { text: "a-b".to_string() })
    );
}

#[test]
fn answers_approve_only_on_y() {
    assert!(affirmative("yes"));
    assert!(affirmative("Y\n"));
    assert!(affirmative("  yep"));
    assert!(affirmative("\u{3000}y"));
    assert!(!affirmative("no"));
    assert!(!affirmative(""));
    assert!(!affirmative(" \t\n"));
    assert!(!affirmative("ok yes"));
}

#[test]
fn statements_are_built_from_names() {
    assert_eq!(drop_statement(&table("players")), "DROP TABLE IF EXISTS players;");
    assert_eq!(definition_file_name(&table("items")), "items.sql");
}

#[test]
fn stems_of_definition_files() {
    assert_eq!(definition_stem("items.sql"), Some("items"));
    assert_eq!(definition_stem("a.b.sql"), Some("a.b"));
    assert_eq!(definition_stem(".sql"), None);
    assert_eq!(definition_stem("items.SQL"), None);
    assert_eq!(definition_stem("items.sql.bak"), None);
    assert_eq!(definition_stem("sql"), None);
}

#[test]
fn listing_yields_definition_names_in_order() {
    let r = definition_names(&strings(&["b.sql", "x.txt", "a.sql"])).unwrap();
    assert_eq!(texts(&r), strings(&["b", "a"]));
    assert_eq!(
        definition_names(&strings(&["a.b.sql"])),
        Err(NameError::Invalid { text: "a.b".to_string() })
    );
    assert!(definition_names(&Vec::new()).unwrap().is_empty());
}

#[test]
fn catalog_names_are_checked() {
    let r = parse_names(&strings(&["players", "items"])).unwrap();
    assert_eq!(texts(&r), strings(&["players", "items"]));
    assert!(parse_names(&strings(&["players", ""])).is_err());
}

#[test]
fn missing_tables_keep_definition_order() {
    let defs = tables(&["players", "items", "spells"]);
    let existing = tables(&["players"]);
    assert_eq!(texts(&to_create(&defs, &existing)), strings(&["items", "spells"]));
    assert_eq!(texts(&to_create(&defs, &Vec::new())), strings(&["players", "items", "spells"]));
    assert!(to_create(&defs, &tables(&["spells", "items", "players", "extra"])).is_empty());
    assert!(contains_name(&defs, &table("items")));
    assert!(!contains_name(&defs, &table("monsters")));
}

#[test]
fn missing_tables_exclude_existing_ones() {
    let defs = tables(&["a", "b", "c"]);
    let existing = tables(&["d", "e"]);
    let todo = to_create(&defs, &existing);
    for t in &todo {
        assert!(!contains_name(&existing, t));
    }
    assert_eq!(texts(&todo), strings(&["a", "b", "c"]));
}

#[test]
fn applying_twice_leaves_nothing_missing() {
    let defs = tables(&["players", "items", "spells"]);
    let existing = tables(&["items"]);
    let first = to_create(&defs, &existing);
    let mut after = to_drop(&existing);
    after.extend(to_drop(&first));
    assert!(to_create(&defs, &after).is_empty());
}

#[test]
fn dropping_lists_every_existing_table() {
    assert_eq!(texts(&to_drop(&tables(&["players", "items"]))), strings(&["players", "items"]));
}

#[test]
fn every_action_gets_one_outcome() {
    let actions = vec![
        PendingAction::Drop { table: table("a") },
        PendingAction::Create { table: table("b"), ddl: "CREATE TABLE b (x INT);".to_string() },
        PendingAction::Drop { table: table("c") },
    ];
    let mut run = Execution::new(actions);
    assert_eq!(run.len(), 3);
    assert_eq!(run.statement(0), "DROP TABLE IF EXISTS a;");
    assert_eq!(run.statement(1), "CREATE TABLE b (x INT);");
    assert_eq!(
        run.statements(),
        strings(&["DROP TABLE IF EXISTS a;", "CREATE TABLE b (x INT);", "DROP TABLE IF EXISTS c;"])
    );
    run.record(2, Err("gone".to_string()));
    assert!(!run.is_drained());
    assert!(!run.is_pending(2) && run.is_pending(0));
    run.record(0, Ok(()));
    run.record(1, Err("duplicate".to_string()));
    assert!(run.is_drained());
    assert_eq!(run.outcomes().len(), 3);
    let order: Vec<String> = run
        .outcomes()
        .iter()
        .map(|o| match o {
            ActionOutcome::Success { table } => table.as_str().to_string(),
            ActionOutcome::Failure { table, .. } => table.as_str().to_string(),
        })
        .collect();
    assert_eq!(order, strings(&["c", "a", "b"]));
    let failures = run.failures();
    assert_eq!(failures.len(), 2);
    assert!(failures.iter().all(|f| f.is_failure()));
    assert!(matches!(&failures[1], ActionOutcome::Failure { cause, .. } if cause == "duplicate"));
}
