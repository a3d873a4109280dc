use oxide_seo::sql_guard::{sql_statement_of, validate_read_only_sql};
use rusqlite::Connection;

fn test_conn() -> Connection {
    let conn = Connection::open_in_memory().unwrap();
    conn.execute_batch(
        "CREATE TABLE pages (id INTEGER PRIMARY KEY, url TEXT, updated_at TEXT, title TEXT);
         CREATE TABLE issues (id INTEGER PRIMARY KEY, rule_id TEXT, severity TEXT);",
    )
    .unwrap();
    conn
}

#[test]
fn test_valid_select() {
    let conn = test_conn();
    assert!(validate_read_only_sql(&conn, "SELECT * FROM pages WHERE id = ?1"));
    assert!(validate_read_only_sql(&conn, "SELECT COUNT(*) FROM issues WHERE rule_id LIKE 'plugin.%'"));
    assert!(validate_read_only_sql(&conn, "  SELECT url FROM pages  "));
}

#[test]
fn test_column_names_with_keywords_allowed() {
    let conn = test_conn();
    assert!(validate_read_only_sql(&conn, "SELECT updated_at FROM pages"));
    assert!(validate_read_only_sql(&conn, "SELECT id, title FROM pages WHERE updated_at IS NOT NULL"));
}

#[test]
fn test_rejects_write_operations() {
    let conn = test_conn();
    assert!(!validate_read_only_sql(&conn, "INSERT INTO pages VALUES (1, 'x', 'y', 'z')"));
    assert!(!validate_read_only_sql(&conn, "UPDATE pages SET title = 'x'"));
    assert!(!validate_read_only_sql(&conn, "DELETE FROM pages WHERE id = 1"));
}

#[test]
fn test_rejects_multi_statement_injection() {
    let conn = test_conn();
    assert!(!validate_read_only_sql(&conn, "SELECT * FROM pages; DELETE FROM pages"));
    assert!(!validate_read_only_sql(&conn, "SELECT 1; DROP TABLE pages"));
}

#[test]
fn test_rejects_ddl() {
    let conn = test_conn();
    assert!(!validate_read_only_sql(&conn, "DROP TABLE pages"));
    assert!(!validate_read_only_sql(&conn, "CREATE TABLE evil (id INT)"));
}

#[test]
fn test_rejects_pragma() {
    let conn = test_conn();
    assert!(!validate_read_only_sql(&conn, "PRAGMA table_info(pages)"));
}

#[test]
fn test_rejects_empty_and_invalid() {
    let conn = test_conn();
    assert!(!validate_read_only_sql(&conn, ""));
    assert!(!validate_read_only_sql(&conn, "   "));
    assert!(!validate_read_only_sql(&conn, "NOT VALID SQL AT ALL"));
}

#[test]
fn test_case_insensitive() {
    let conn = test_conn();
    assert!(validate_read_only_sql(&conn, "select * from pages where id = 1"));
    assert!(!validate_read_only_sql(&conn, "select * from pages; insert into pages values(1, 'a', 'b', 'c')"));
}

#[test]
fn test_with_cte() {
    let conn = test_conn();
    assert!(validate_read_only_sql(&conn, "WITH cte AS (SELECT id FROM pages) SELECT * FROM cte"));
}

#[test]
fn test_rejects_attach() {
    let conn = test_conn();
    assert!(!validate_read_only_sql(&conn, "ATTACH DATABASE ':memory:' AS evil"));
}

#[test]
fn statement_text_checks() {
    assert_eq!(sql_statement_of("  SELECT 1;;  ").as_deref(), Some("SELECT 1;;"));
    assert_eq!(sql_statement_of("SELECT 1 ; ;"), None);
    assert_eq!(sql_statement_of("SELECT 1; SELECT 2"), None);
    assert_eq!(sql_statement_of("detach database x"), None);
    assert_eq!(sql_statement_of("pragma user_version"), None);
    assert_eq!(sql_statement_of(" \n "), None);
}
