use melodium_libs::sql::{batch_rows, batch_rows_text, postgres_bind_replace, statement_for};

#[test]
fn placeholders_are_numbered_for_postgres() {
    assert_eq!(postgres_bind_replace("INSERT INTO t VALUES (?, ?, ?)", "?"), "INSERT INTO t VALUES ($1, $2, $3)");
    assert_eq!(postgres_bind_replace("SELECT 1", "?"), "SELECT 1");
    assert_eq!(postgres_bind_replace("a :: b :: c", "::"), "a $1 b $2 c");
    assert_eq!(postgres_bind_replace("ab", ""), "$3$2$1ab");
}

#[test]
fn statements_by_scheme() {
    assert_eq!(statement_for("postgres", "x = ?", "?"), "x = $1");
    assert_eq!(statement_for("mysql", "x = ?", "?"), "x = ?");
}

#[test]
fn batches() {
    assert_eq!(batch_rows(100_000, 3), 21845);
    assert_eq!(batch_rows(10, 3), 3);
    assert_eq!(batch_rows_text("(?, ?)", 3, ", "), "(?, ?), (?, ?), (?, ?)");
    assert_eq!(batch_rows_text("(?)", 1, ", "), "(?)");
    assert_eq!(batch_rows_text("(?)", 0, ", "), "");
}

#[test]
fn batch_statements_number_only_the_rows() {
    assert_eq!(
        melodium_libs::sql::batch_statement("postgres", "INSERT INTO t VALUES ", "(?, ?)", 2, ", ", "?"),
        "INSERT INTO t VALUES ($1, $2), ($3, $4)"
    );
    assert_eq!(
        melodium_libs::sql::batch_statement("sqlite", "INSERT INTO t VALUES ", "(?)", 2, ", ", "?"),
        "INSERT INTO t VALUES (?), (?)"
    );
}

#[test]
fn batch_sizes_cut_rows() {
    assert_eq!(melodium_libs::sql::batch_sizes(7, 3), vec![3, 3, 1]);
    assert_eq!(melodium_libs::sql::batch_sizes(6, 3), vec![3, 3]);
    assert_eq!(melodium_libs::sql::batch_sizes(0, 3), Vec::<usize>::new());
    assert_eq!(melodium_libs::sql::batch_sizes(5, 0), Vec::<usize>::new());
}

#[test]
fn execution_reports() {
    let results = vec![Ok(2u64), Err("constraint".to_string()), Ok(1u64)];
    let r = melodium_libs::sql::execution_report(&results, true);
    assert_eq!(r.executed, 2);
    assert_eq!(r.affected, vec![2]);
    assert_eq!(r.failures, vec!["constraint".to_string()]);
    let r = melodium_libs::sql::execution_report(&results, false);
    assert_eq!(r.executed, 3);
    assert_eq!(r.affected, vec![2, 1]);
}

#[test]
fn batch_binds_by_name_with_null_for_missing_keys() {
    let rows: Vec<Vec<(String, i64)>> = vec![
        vec![("id".to_string(), 1), ("name_len".to_string(), 5)],
        vec![("name_len".to_string(), 7)],
        vec![],
    ];
    let bindings = vec!["id".to_string(), "name_len".to_string()];
    let binds = melodium_libs::sql::batch_binds(&rows, &bindings);
    assert_eq!(binds, vec![Some(&1), Some(&5), None, Some(&7), None, None]);
    let none: Vec<Vec<(String, i64)>> = vec![];
    assert!(melodium_libs::sql::batch_binds(&none, &bindings).is_empty());
}
