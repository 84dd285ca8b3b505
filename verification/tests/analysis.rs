use mcp_mysql_server::relationships::{match_table, relationship_report, target_of, ColumnRef, ForeignKeyLink};
use mcp_mysql_server::schema_diff::{common_tables, count_lines, schema_diff_report, ColumnShape, TableComparison};

fn s(x: &str) -> String {
    x.to_string()
}

const HEAD: &str = "Suggested Logical Relationships (Heuristic):\n\nSource Table | Source Column | Target Table | Note\n--- | --- | --- | ---\n";

fn col(t: &str, c: &str) -> ColumnRef {
    ColumnRef { table: s(t), column: s(c) }
}

#[test]
fn column_names_point_at_tables() {
    assert_eq!(target_of("customer_id"), Some(s("customer")));
    assert_eq!(target_of("term_ID"), Some(s("term")));
    assert_eq!(target_of("userId"), Some(s("user")));
    assert_eq!(target_of("id"), Some(s("")));
    assert_eq!(target_of("_id"), Some(s("")));
    assert_eq!(target_of("name"), None);
    assert_eq!(target_of("d"), None);
}

#[test]
fn suggestions_skip_declared_keys() {
    let links = vec![ForeignKeyLink {
        table: s("orders"),
        column: s("user_id"),
        referenced_table: s("users"),
        referenced_column: s("id"),
    }];
    let candidates = vec![
        col("order_main", "customer_id"),
        col("orders", "user_id"),
        col("biz_pc16n_corn_job", "termId"),
        col("t", "paid"),
    ];
    assert_eq!(
        relationship_report(&links, &vec![], &candidates),
        format!(
            "{}order_main | customer_id | customer (Guess) | Possible logical join\nbiz_pc16n_corn_job | termId | term (Guess) | Possible logical join\nt | paid | pa (Guess) | Possible logical join\n",
            HEAD
        )
    );
}

#[test]
fn no_candidates_only_header() {
    assert_eq!(relationship_report(&vec![], &vec![], &vec![col("a", "name")]), HEAD);
}

fn shape(n: &str, t: &str, null: &str) -> ColumnShape {
    ColumnShape { name: s(n), column_type: s(t), is_nullable: s(null) }
}

#[test]
fn lines_are_counted_like_str_lines() {
    assert_eq!(count_lines(""), 0);
    assert_eq!(count_lines("a"), 1);
    assert_eq!(count_lines("a\n"), 1);
    assert_eq!(count_lines("a\n\n"), 2);
    assert_eq!(count_lines("a\nb"), 2);
    for t in ["", "x", "x\n", "\n\n\n", "a\r\nb", "a\nb\n"] {
        assert_eq!(count_lines(t), t.lines().count());
    }
}

#[test]
fn common_tables_in_source_order() {
    let src = vec![s("a"), s("b"), s("c")];
    let tgt = vec![s("c"), s("a"), s("d")];
    assert_eq!(common_tables(&src, &tgt), vec![s("a"), s("c")]);
}

#[test]
fn diff_reports_tables_and_columns() {
    let src = vec![s("users"), s("orders"), s("logs")];
    let tgt = vec![s("users"), s("orders"), s("audit")];
    let comparisons = vec![
        TableComparison {
            table: s("users"),
            source_columns: vec![shape("id", "int", "NO"), shape("email", "varchar(64)", "YES")],
            target_columns: vec![shape("id", "int", "NO"), shape("email", "varchar(128)", "YES")],
        },
        TableComparison {
            table: s("orders"),
            source_columns: vec![shape("id", "int", "NO"), shape("note", "text", "YES")],
            target_columns: vec![shape("id", "bigint", "NO")],
        },
    ];
    assert_eq!(
        schema_diff_report("dev", "prod", &src, &tgt, &comparisons),
        "Schema Diff: dev vs prod\n\n\
- [MISSING TABLE] `logs` exists in source but not in target.\n\
- [EXTRA TABLE] `audit` exists in target but not in source.\n\
- [DIFF COLUMN] Table `users`: Column `email` type/null mismatch (Source: varchar(64) YES, Target: varchar(128) YES)\n\
- [DIFF COLUMN] Table `orders`: Column `id` type/null mismatch (Source: int NO, Target: bigint NO)\n\
- [MISSING COLUMN] Table `orders`: Column `note` is missing in target.\n"
    );
}

#[test]
fn identical_schemas_have_no_differences() {
    let tables = vec![s("users")];
    let comparisons = vec![TableComparison {
        table: s("users"),
        source_columns: vec![shape("id", "int", "NO")],
        target_columns: vec![shape("id", "int", "NO")],
    }];
    assert_eq!(
        schema_diff_report("dev", "prod", &tables, &tables, &comparisons),
        "No major structural differences found between schemas."
    );
}

#[test]
fn connection_name_with_newline_keeps_the_header() {
    assert_eq!(
        schema_diff_report("a\nb", "c", &vec![], &vec![], &vec![]),
        "Schema Diff: a\nb vs c\n\n"
    );
}

#[test]
fn first_target_column_of_a_name_is_compared() {
    let comparisons = vec![TableComparison {
        table: s("t"),
        source_columns: vec![shape("x", "int", "NO")],
        target_columns: vec![shape("x", "int", "NO"), shape("x", "text", "YES")],
    }];
    assert_eq!(
        schema_diff_report("a", "b", &vec![s("t")], &vec![s("t")], &comparisons),
        "No major structural differences found between schemas."
    );
}

#[test]
fn column_only_in_target_is_reported() {
    let tables = vec![s("users")];
    let comparisons = vec![TableComparison {
        table: s("users"),
        source_columns: vec![shape("id", "int", "NO")],
        target_columns: vec![shape("id", "int", "NO"), shape("phone", "varchar(20)", "YES")],
    }];
    assert_eq!(
        schema_diff_report("dev", "prod", &tables, &tables, &comparisons),
        "Schema Diff: dev vs prod\n\n\
- [EXTRA COLUMN] Table `users`: Column `phone` exists in target but not in source.\n"
    );
}

#[test]
fn swapping_sides_swaps_table_lines() {
    let a = vec![s("users"), s("logs")];
    let b = vec![s("users"), s("audit")];
    assert_eq!(
        schema_diff_report("x", "y", &a, &b, &vec![]),
        "Schema Diff: x vs y\n\n\
- [MISSING TABLE] `logs` exists in source but not in target.\n\
- [EXTRA TABLE] `audit` exists in target but not in source.\n"
    );
    assert_eq!(
        schema_diff_report("y", "x", &b, &a, &vec![]),
        "Schema Diff: y vs x\n\n\
- [MISSING TABLE] `audit` exists in source but not in target.\n\
- [EXTRA TABLE] `logs` exists in target but not in source.\n"
    );
}

#[test]
fn guesses_name_the_schema_table() {
    let tables = vec![s("order_main"), s("customers"), s("term"), s("users")];
    let candidates = vec![col("order_main", "customer_id"), col("biz", "termId"), col("log", "user_id"), col("x", "shop_id")];
    assert_eq!(
        relationship_report(&vec![], &tables, &candidates),
        format!(
            "{}order_main | customer_id | customers (Guess) | Possible logical join\nbiz | termId | term (Guess) | Possible logical join\nlog | user_id | users (Guess) | Possible logical join\nx | shop_id | shop (Guess) | Possible logical join\n",
            HEAD
        )
    );
    assert_eq!(match_table(&s("user"), &vec![s("user"), s("users")]), "user");
}
