use mcp_mysql_server::json::{names_json, ColumnValue};
use mcp_mysql_server::report::{
    ddl_report, describe_report, dry_run_report, foreign_key_report, index_report, pii_report,
    query_report, search_report, stats_report, ColumnDescription, ForeignKey, IndexEntry,
    SchemaMatch, SensitiveColumn, TableStats,
};
use mcp_mysql_server::sql::{
    explain_sql, list_tables_sql, pii_scan_binds, pii_scan_sql,
    search_pattern, show_create_table_sql, show_index_sql, table_preview_sql,
};
use mcp_mysql_server::text::decimal_string;

fn s(x: &str) -> String {
    x.to_string()
}

#[test]
fn sql_texts() {
    assert_eq!(list_tables_sql("shop"), "SHOW TABLES FROM `shop`");
    assert_eq!(show_create_table_sql("shop", "orders"), "SHOW CREATE TABLE `shop`.`orders`");
    assert_eq!(show_index_sql("shop", "orders"), "SHOW INDEX FROM `shop`.`orders`");
    assert_eq!(table_preview_sql("shop", "orders", 10), "SELECT * FROM `shop`.`orders` LIMIT 10");
    assert_eq!(table_preview_sql("s", "t", 0), "SELECT * FROM `s`.`t` LIMIT 0");
    assert_eq!(explain_sql("SELECT 1"), "EXPLAIN SELECT 1");
    assert_eq!(search_pattern("user"), "%user%");
}

#[test]
fn pii_query_and_binds() {
    let sql = pii_scan_sql();
    let expected = format!(
        "\n            SELECT table_name, column_name, column_comment\n            FROM information_schema.columns\n            WHERE table_schema = ? AND (\n        {})",
        vec!["column_name LIKE ? OR column_comment LIKE ?"; 10].join(" OR ")
    );
    assert_eq!(sql, expected);
    assert_eq!(sql.matches('?').count(), 21);
    let binds = pii_scan_binds("crm");
    assert_eq!(binds.len(), 21);
    assert_eq!(binds[0], "crm");
    assert_eq!(binds[1], "%phone%");
    assert_eq!(binds[2], "%phone%");
    assert_eq!(binds[3], "%mobile%");
    assert_eq!(binds[20], "%credit%");
}

#[test]
fn decimal_text() {
    assert_eq!(decimal_string(0), "0");
    assert_eq!(decimal_string(1024), "1024");
    assert_eq!(decimal_string(u64::MAX), "18446744073709551615");
}

#[test]
fn describe_table_report() {
    let rows = vec![ColumnDescription {
        field: s("id"),
        column_type: s("int"),
        null: s("NO"),
        key: s("PRI"),
        default: s("NULL"),
        extra: s("auto_increment"),
        comment: s("order number"),
    }];
    assert_eq!(
        describe_report("shop", "orders", &rows).unwrap(),
        "Field | Type | Null | Key | Default | Extra | Comment\n--- | --- | --- | --- | --- | --- | ---\nid | int | NO | PRI | NULL | auto_increment | order number\n"
    );
    assert_eq!(describe_report("shop", "nope", &vec![]), Err(s("Table 'shop.nope' doesn't exist")));
}

#[test]
fn search_report_lines() {
    let rows = vec![
        SchemaMatch { kind: s("TABLE"), schema: s("app"), name: s("sys_user_info") },
        SchemaMatch { kind: s("COLUMN"), schema: s("app"), name: s("orders.user_id") },
    ];
    assert_eq!(
        search_report(&rows),
        "Type | Schema | Name\n--- | --- | ---\nTABLE | app | sys_user_info\nCOLUMN | app | orders.user_id\n"
    );
}

#[test]
fn index_report_with_numbers() {
    let rows = vec![IndexEntry {
        table: s("orders"),
        non_unique: 0,
        key_name: s("PRIMARY"),
        seq_in_index: 1,
        column_name: s("id"),
        index_type: s("BTREE"),
        comment: s(""),
    }, IndexEntry {
        table: s("t"),
        non_unique: -7,
        key_name: s("k"),
        seq_in_index: i32::MIN,
        column_name: s("c"),
        index_type: s("HASH"),
        comment: s("x"),
    }];
    assert_eq!(
        index_report(&rows),
        "Table | Non_unique | Key_name | Seq_in_index | Column_name | Index_type | Comment\n--- | --- | --- | --- | --- | --- | ---\norders | 0 | PRIMARY | 1 | id | BTREE | \nt | -7 | k | -2147483648 | c | HASH | x\n"
    );
}

#[test]
fn foreign_key_report_lines() {
    let rows = vec![ForeignKey {
        column: s("customer_id"),
        referenced_schema: s("shop"),
        referenced_table: s("customers"),
        referenced_column: s("id"),
    }];
    assert_eq!(
        foreign_key_report(&rows),
        "Column | Ref Schema | Ref Table | Ref Column\n--- | --- | --- | ---\ncustomer_id | shop | customers | id\n"
    );
}

#[test]
fn pii_report_lines() {
    let rows = vec![SensitiveColumn { table: s("users"), column: s("phone"), comment: s("mobile number") }];
    assert_eq!(
        pii_report(&rows),
        "Detected Potential PII Columns:\n\nTable | Column | Comment\n--- | --- | ---\nusers | phone | mobile number\n"
    );
}

#[test]
fn stats_report_sizes_in_kilobytes() {
    let t = TableStats {
        rows: Some(1500),
        data_length: Some(16384),
        index_length: Some(2047),
        create_time: Some(s("2024-01-02 03:04:05")),
        update_time: None,
        comment: s("orders"),
    };
    assert_eq!(
        stats_report(&t),
        "- **Rows**: 1500\n- **Data Size**: 16 KB\n- **Index Size**: 1 KB\n- **Created**: Some(\"2024-01-02 03:04:05\")\n- **Updated**: None\n- **Comment**: orders\n"
    );
}

#[test]
fn stats_report_unknown_numbers_are_zero() {
    let t = TableStats {
        rows: None,
        data_length: None,
        index_length: None,
        create_time: Some(s("a\"b")),
        update_time: None,
        comment: s(""),
    };
    assert_eq!(
        stats_report(&t),
        "- **Rows**: 0\n- **Data Size**: 0 KB\n- **Index Size**: 0 KB\n- **Created**: Some(\"a\\\"b\")\n- **Updated**: None\n- **Comment**: \n"
    );
}

#[test]
fn execution_counts() {
    assert_eq!(ddl_report(3), "Execution successful. Rows affected: 3");
    assert_eq!(dry_run_report(0), "Dry run successful (Transaction rolled back). Rows that would be affected: 0");
}

#[test]
fn query_without_rows() {
    assert_eq!(query_report(&vec![]), "No rows returned");
}

#[test]
fn query_rows_as_json() {
    let rows = vec![
        vec![ColumnValue { column: s("id"), value: s("1") }, ColumnValue { column: s("name"), value: s("a") }],
        vec![ColumnValue { column: s("id"), value: s("2") }, ColumnValue { column: s("name"), value: s("<blobs/unknown>") }],
    ];
    assert_eq!(
        query_report(&rows),
        "[\n  {\n    \"id\": \"1\",\n    \"name\": \"a\"\n  },\n  {\n    \"id\": \"2\",\n    \"name\": \"<blobs/unknown>\"\n  }\n]"
    );
}

#[test]
fn names_as_json() {
    assert_eq!(names_json(&vec![s("a"), s("b")]), "[\n  \"a\",\n  \"b\"\n]");
    assert_eq!(names_json(&vec![]), "[]");
}
