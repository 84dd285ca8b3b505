use mcp_mysql_server::statement::{
    is_read_only_statement, use_schema_sql, READ_ONLY_REQUIRED, READ_ONLY_TRANSACTION_SQL, ROLLBACK_SQL,
};

#[test]
fn reading_statements_are_read_only() {
    assert!(is_read_only_statement("SELECT * FROM users"));
    assert!(is_read_only_statement("  \n\tselect 1"));
    assert!(is_read_only_statement("Show tables"));
    assert!(is_read_only_statement("DESC users"));
    assert!(is_read_only_statement("describe users"));
    assert!(is_read_only_statement("EXPLAIN SELECT 1"));
    assert!(is_read_only_statement("(SELECT 1)"));
    assert!(is_read_only_statement("/* c */ SELECT 1"));
    assert!(is_read_only_statement("-- c\nSELECT 1"));
    assert!(is_read_only_statement("# c\nSELECT 1"));
    assert!(is_read_only_statement("TABLE t"));
    assert!(is_read_only_statement("VALUES ROW(1)"));
    assert!(is_read_only_statement("WITH t AS (SELECT 1 AS a) SELECT a FROM t"));
    assert!(is_read_only_statement("WITH RECURSIVE t (n) AS (SELECT 1 UNION ALL SELECT n + 1 FROM t WHERE n < 3) SELECT n FROM t"));
    assert!(is_read_only_statement("SELECT 'into' AS word, `into` FROM t"));
}

#[test]
fn changing_statements_are_not_read_only() {
    assert!(!is_read_only_statement("DELETE FROM users"));
    assert!(!is_read_only_statement("update users set a = 1"));
    assert!(!is_read_only_statement("INSERT INTO t VALUES (1)"));
    assert!(!is_read_only_statement("DROP TABLE t"));
    assert!(!is_read_only_statement("SELECTED"));
    assert!(!is_read_only_statement(""));
    assert!(!is_read_only_statement("   "));
    assert!(!is_read_only_statement("/* SELECT */ DELETE FROM t"));
    assert!(!is_read_only_statement("WITH t AS (SELECT 1) DELETE FROM x"));
    assert!(!is_read_only_statement("SELECT * FROM t INTO OUTFILE '/tmp/x'"));
    assert!(!is_read_only_statement("SELECT 1 INTO @v"));
}

#[test]
fn schema_and_transaction_statements() {
    assert_eq!(use_schema_sql("shop"), "USE `shop`");
    assert_eq!(READ_ONLY_TRANSACTION_SQL, "START TRANSACTION READ ONLY");
    assert_eq!(ROLLBACK_SQL, "ROLLBACK");
    assert!(READ_ONLY_REQUIRED.starts_with("Only read-only statements"));
}
