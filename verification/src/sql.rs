//! The SQL text that each tool sends to the server, and the values bound
//! to its placeholders.

use vstd::prelude::*;
use crate::text::{decimal, push_decimal, push_text};

verus! {

/// Lists the schemas of a server.
pub const LIST_SCHEMAS_SQL: &'static str = "SHOW DATABASES";

/// Finds tables and columns whose name or comment matches a pattern; its
/// four placeholders all take the pattern.
pub const SEARCH_SCHEMA_SQL: &'static str = "\n            SELECT 'TABLE' as type, table_schema, table_name as name\n            FROM information_schema.tables\n            WHERE table_name LIKE ? OR table_comment LIKE ?\n            UNION ALL\n            SELECT 'COLUMN' as type, table_schema, CONCAT(table_name, '.', column_name) as name\n            FROM information_schema.columns\n            WHERE column_name LIKE ? OR column_comment LIKE ?\n            LIMIT 100\n        ";

/// The foreign keys of one table; placeholders: schema, table.
pub const FOREIGN_KEYS_SQL: &'static str = "\n            SELECT \n                column_name, referenced_table_schema, referenced_table_name, referenced_column_name\n            FROM information_schema.key_column_usage\n            WHERE table_schema = ? AND table_name = ? AND referenced_table_name IS NOT NULL\n        ";

/// Row count, sizes, times and comment of one table; placeholders: schema, table.
pub const TABLE_STATS_SQL: &'static str = "\n            SELECT \n                table_rows, data_length, index_length, create_time, update_time, table_comment\n            FROM information_schema.tables\n            WHERE table_schema = ? AND table_name = ?\n        ";

/// Every foreign key of a schema; placeholder: schema.
pub const SCHEMA_FOREIGN_KEYS_SQL: &'static str = "\n            SELECT \n                table_name, column_name, referenced_table_name, referenced_column_name\n            FROM information_schema.key_column_usage\n            WHERE table_schema = ? AND referenced_table_name IS NOT NULL\n        ";

/// Every column of a schema whose name looks like a reference to another
/// table; placeholder: schema.
pub const ID_COLUMNS_SQL: &'static str = "\n            SELECT table_name, column_name\n            FROM information_schema.columns\n            WHERE table_schema = ? AND (column_name LIKE '%_id' OR column_name LIKE '%Id')\n        ";

/// The definition of each column of a table, comment included, in the
/// table's column order; placeholders: schema, table.
pub const DESCRIBE_COLUMNS_SQL: &'static str = "SELECT COLUMN_NAME, COLUMN_TYPE, IS_NULLABLE, COLUMN_KEY, COLUMN_DEFAULT, EXTRA, COLUMN_COMMENT FROM information_schema.COLUMNS WHERE TABLE_SCHEMA = ? AND TABLE_NAME = ? ORDER BY ORDINAL_POSITION";

/// The tables of a schema; placeholder: schema.
pub const SCHEMA_TABLES_SQL: &'static str = "SELECT table_name FROM information_schema.tables WHERE table_schema = ?";

/// Name, type and nullability of the columns of a table; placeholders:
/// schema, table.
pub const TABLE_COLUMNS_SQL: &'static str = "SELECT column_name, column_type, is_nullable FROM information_schema.columns WHERE table_schema = ? AND table_name = ?";

/// The head of the query that looks for columns that may hold personal data.
pub const PII_SCAN_HEAD_SQL: &'static str = "\n            SELECT table_name, column_name, column_comment\n            FROM information_schema.columns\n            WHERE table_schema = ? AND (\n        ";

/// The condition that one keyword puts on a column; placeholders: the
/// keyword, twice.
pub const PII_CONDITION_SQL: &'static str = "column_name LIKE ? OR column_comment LIKE ?";

/// `` `schema`.`table` ``
pub open spec fn qualified_table(schema: Seq<char>, table: Seq<char>) -> Seq<char> {
    "`"@ + schema + "`.`"@ + table + "`"@
}

fn push_qualified_table(out: &mut String, schema: &str, table: &str)
    ensures
        final(out)@ == old(out)@ + qualified_table(schema@, table@),
{
    push_text(out, "`");
    push_text(out, schema);
    push_text(out, "`.`");
    push_text(out, table);
    push_text(out, "`");
}

/// Lists the tables of a schema.
pub fn list_tables_sql(schema: &str) -> (sql: String)
    ensures
        sql@ == "SHOW TABLES FROM `"@ + schema@ + "`"@,
{
    let mut sql = String::new();
    push_text(&mut sql, "SHOW TABLES FROM `");
    push_text(&mut sql, schema);
    push_text(&mut sql, "`");
    sql
}

/// Asks for the statement that creates a table.
pub fn show_create_table_sql(schema: &str, table: &str) -> (sql: String)
    ensures
        sql@ == "SHOW CREATE TABLE "@ + qualified_table(schema@, table@),
{
    let mut sql = String::new();
    push_text(&mut sql, "SHOW CREATE TABLE ");
    push_qualified_table(&mut sql, schema, table);
    sql
}

/// Lists the indexes of a table.
pub fn show_index_sql(schema: &str, table: &str) -> (sql: String)
    ensures
        sql@ == "SHOW INDEX FROM "@ + qualified_table(schema@, table@),
{
    let mut sql = String::new();
    push_text(&mut sql, "SHOW INDEX FROM ");
    push_qualified_table(&mut sql, schema, table);
    sql
}

/// Reads at most `limit` rows of a table.
pub fn table_preview_sql(schema: &str, table: &str, limit: u32) -> (sql: String)
    ensures
        sql@ == "SELECT * FROM "@ + qualified_table(schema@, table@) + " LIMIT "@ + decimal(
            limit as nat,
        ),
{
    let mut sql = String::new();
    push_text(&mut sql, "SELECT * FROM ");
    push_qualified_table(&mut sql, schema, table);
    push_text(&mut sql, " LIMIT ");
    push_decimal(&mut sql, limit as u64);
    sql
}

/// Asks the server for its plan for `sql`.
pub fn explain_sql(sql: &str) -> (r: String)
    ensures
        r@ == "EXPLAIN "@ + sql@,
{
    let mut r = String::new();
    push_text(&mut r, "EXPLAIN ");
    push_text(&mut r, sql);
    r
}

/// The LIKE pattern that matches any text containing `keyword`.
pub fn search_pattern(keyword: &str) -> (p: String)
    ensures
        p@ == "%"@ + keyword@ + "%"@,
{
    let mut p = String::new();
    push_text(&mut p, "%");
    push_text(&mut p, keyword);
    push_text(&mut p, "%");
    p
}

/// The LIKE patterns of column names and comments that suggest personal data.
pub open spec fn pii_patterns() -> Seq<Seq<char>> {
    seq![
        "%phone%"@,
        "%mobile%"@,
        "%email%"@,
        "%address%"@,
        "%password%"@,
        "%pwd%"@,
        "%id_card%"@,
        "%real_name%"@,
        "%card_no%"@,
        "%credit%"@,
    ]
}

/// The LIKE patterns of column names and comments that suggest personal data.
pub fn pii_keyword_patterns() -> (r: Vec<&'static str>)
    ensures
        r@.map_values(|s: &str| s@) == pii_patterns(),
        r@.map_values(|s: &str| s@) == seq!["%phone%"@, "%mobile%"@, "%email%"@, "%address%"@, "%password%"@, "%pwd%"@, "%id_card%"@, "%real_name%"@, "%card_no%"@, "%credit%"@],
{
    let r = vec![
        "%phone%",
        "%mobile%",
        "%email%",
        "%address%",
        "%password%",
        "%pwd%",
        "%id_card%",
        "%real_name%",
        "%card_no%",
        "%credit%",
    ];
    assert(r@.map_values(|s: &str| s@) =~= pii_patterns());
    r
}

/// The keyword patterns are phone, mobile, email, address, password, pwd,
/// id card, real name, card number and credit, each matched anywhere in a
/// column's name or comment.
pub proof fn lemma_pii_patterns_listed()
    ensures
        pii_patterns() == seq!["%phone%"@, "%mobile%"@, "%email%"@, "%address%"@, "%password%"@, "%pwd%"@, "%id_card%"@, "%real_name%"@, "%card_no%"@, "%credit%"@],
{
}

/// `n` copies of the keyword condition, joined by ` OR `.
pub open spec fn pii_conditions(n: nat) -> Seq<char>
    decreases n,
{
    if n == 0 {
        Seq::empty()
    } else if n == 1 {
        PII_CONDITION_SQL@
    } else {
        pii_conditions((n - 1) as nat) + " OR "@ + PII_CONDITION_SQL@
    }
}

/// The query for columns that may hold personal data: one condition per
/// keyword pattern, joined by ` OR ` inside the parentheses that the head opens.
pub open spec fn pii_scan_sql_text() -> Seq<char> {
    PII_SCAN_HEAD_SQL@ + pii_conditions(pii_patterns().len()) + ")"@
}

/// The query for columns that may hold personal data.
pub fn pii_scan_sql() -> (sql: String)
    ensures
        sql@ == pii_scan_sql_text(),
{
    let patterns = pii_keyword_patterns();
    let mut sql = String::new();
    push_text(&mut sql, PII_SCAN_HEAD_SQL);
    let n = patterns.len();
    proof {
        assert(patterns@.map_values(|s: &str| s@).len() == n);
    }
    for i in 0..n
        invariant
            sql@ == PII_SCAN_HEAD_SQL@ + pii_conditions(i as nat),
    {
        if i > 0 {
            push_text(&mut sql, " OR ");
        }
        push_text(&mut sql, PII_CONDITION_SQL);
        proof {
            if i == 0 {
                assert(pii_conditions(1) == PII_CONDITION_SQL@);
                assert(PII_SCAN_HEAD_SQL@ + Seq::<char>::empty() =~= PII_SCAN_HEAD_SQL@);
            }
            assert(PII_SCAN_HEAD_SQL@ + pii_conditions(i as nat) + " OR "@ + PII_CONDITION_SQL@
                =~= PII_SCAN_HEAD_SQL@ + (pii_conditions(i as nat) + " OR "@ + PII_CONDITION_SQL@));
        }
    }
    push_text(&mut sql, ")");
    sql
}

/// The values bound to the query for personal data: the schema, then each
/// keyword pattern twice (for the column's name and for its comment).
pub open spec fn pii_scan_binds_text(schema: Seq<char>) -> Seq<Seq<char>> {
    Seq::new(
        2 * pii_patterns().len() + 1,
        |i: int| if i == 0 { schema } else { pii_patterns()[(i - 1) / 2] },
    )
}

/// The values bound to the query for personal data.
pub fn pii_scan_binds(schema: &str) -> (binds: Vec<String>)
    ensures
        binds@.map_values(|s: String| s@) == pii_scan_binds_text(schema@),
        binds@.map_values(|s: String| s@) == seq![schema@, "%phone%"@, "%phone%"@, "%mobile%"@, "%mobile%"@, "%email%"@, "%email%"@, "%address%"@, "%address%"@, "%password%"@, "%password%"@, "%pwd%"@, "%pwd%"@, "%id_card%"@, "%id_card%"@, "%real_name%"@, "%real_name%"@, "%card_no%"@, "%card_no%"@, "%credit%"@, "%credit%"@],
{
    let patterns = pii_keyword_patterns();
    let mut binds: Vec<String> = Vec::new();
    binds.push(String::from_str(schema));
    let n = patterns.len();
    proof {
        assert(patterns@.map_values(|s: &str| s@).len() == n);
    }
    for i in 0..n
        invariant
            n == pii_patterns().len(),
            patterns@.map_values(|s: &str| s@) == pii_patterns(),
            binds@.len() == 2 * i + 1,
            binds@[0]@ == schema@,
            forall|j: int| 1 <= j < 2 * i + 1 ==> #[trigger] binds@[j]@ == pii_patterns()[(j - 1) / 2],
    {
        let p = patterns[i];
        proof {
            assert(patterns@.map_values(|s: &str| s@)[i as int] == p@);
        }
        binds.push(String::from_str(p));
        binds.push(String::from_str(p));
    }
    assert(binds@.map_values(|s: String| s@) =~= pii_scan_binds_text(schema@));
    assert(pii_scan_binds_text(schema@) =~= seq![schema@, "%phone%"@, "%phone%"@, "%mobile%"@, "%mobile%"@, "%email%"@, "%email%"@, "%address%"@, "%address%"@, "%password%"@, "%password%"@, "%pwd%"@, "%pwd%"@, "%id_card%"@, "%id_card%"@, "%real_name%"@, "%real_name%"@, "%card_no%"@, "%card_no%"@, "%credit%"@, "%credit%"@]);
    binds
}

/// The number of `?` placeholders among the first `n` characters of a text.
pub open spec fn placeholders_before(s: Seq<char>, n: nat) -> nat
    decreases n,
{
    if n == 0 {
        0
    } else {
        placeholders_before(s, (n - 1) as nat) + if s[n - 1] == '?' {
            1nat
        } else {
            0nat
        }
    }
}

/// The number of `?` placeholders in a text.
pub open spec fn placeholder_count(s: Seq<char>) -> nat {
    placeholders_before(s, s.len())
}

proof fn lemma_placeholders_before_concat(a: Seq<char>, b: Seq<char>, n: nat)
    requires
        n <= a.len() + b.len(),
    ensures
        n <= a.len() ==> placeholders_before(a + b, n) == placeholders_before(a, n),
        n >= a.len() ==> placeholders_before(a + b, n) == placeholder_count(a)
            + placeholders_before(b, (n - a.len()) as nat),
    decreases n,
{
    if n > 0 {
        lemma_placeholders_before_concat(a, b, (n - 1) as nat);
        if n <= a.len() {
            assert((a + b)[n - 1] == a[n - 1]);
        } else {
            assert((a + b)[n - 1] == b[n - 1 - a.len()]);
        }
    }
}

/// The placeholders of two texts put together are those of each.
pub proof fn lemma_placeholder_count_concat(a: Seq<char>, b: Seq<char>)
    ensures
        placeholder_count(a + b) == placeholder_count(a) + placeholder_count(b),
{
    lemma_placeholders_before_concat(a, b, a.len() + b.len());
}

proof fn lemma_condition_placeholders()
    ensures
        placeholder_count(PII_CONDITION_SQL@) == 2,
        placeholder_count(" OR "@) == 0,
{
    reveal_strlit("column_name LIKE ? OR column_comment LIKE ?");
    reveal_strlit(" OR ");
    reveal_with_fuel(placeholders_before, 44);
}

proof fn lemma_head_placeholders()
    ensures
        placeholder_count(PII_SCAN_HEAD_SQL@) == 1,
        placeholder_count(")"@) == 0,
{
    reveal_strlit("\n            SELECT table_name, column_name, column_comment\n            FROM information_schema.columns\n            WHERE table_schema = ? AND (\n        ");
    reveal_strlit(")");
    let head = PII_SCAN_HEAD_SQL@;
    assert(head.len() == 153);
    assert(placeholders_before(head, 30) == 0) by {
        reveal_with_fuel(placeholders_before, 31);
    }
    assert(placeholders_before(head, 60) == 0) by {
        reveal_with_fuel(placeholders_before, 31);
    }
    assert(placeholders_before(head, 90) == 0) by {
        reveal_with_fuel(placeholders_before, 31);
    }
    assert(placeholders_before(head, 120) == 0) by {
        reveal_with_fuel(placeholders_before, 31);
    }
    assert(placeholders_before(head, 150) == 1) by {
        reveal_with_fuel(placeholders_before, 31);
    }
    assert(placeholders_before(head, 153) == 1) by {
        reveal_with_fuel(placeholders_before, 4);
    }
    assert(placeholder_count(")"@) == 0) by {
        reveal_with_fuel(placeholders_before, 2);
    }
}

proof fn lemma_pii_conditions_placeholders(n: nat)
    ensures
        placeholder_count(pii_conditions(n)) == 2 * n,
    decreases n,
{
    lemma_condition_placeholders();
    if n == 0 {
        assert(placeholder_count(Seq::<char>::empty()) == 0);
    } else if n > 1 {
        lemma_pii_conditions_placeholders((n - 1) as nat);
        lemma_placeholder_count_concat(pii_conditions((n - 1) as nat), " OR "@);
        lemma_placeholder_count_concat(pii_conditions((n - 1) as nat) + " OR "@, PII_CONDITION_SQL@);
    }
}

/// The query for columns that may hold personal data has exactly one
/// placeholder for each value bound to it.
pub proof fn lemma_pii_scan_placeholders_match_binds(schema: Seq<char>)
    ensures
        placeholder_count(pii_scan_sql_text()) == pii_scan_binds_text(schema).len(),
{
    lemma_head_placeholders();
    lemma_pii_conditions_placeholders(pii_patterns().len());
    lemma_placeholder_count_concat(PII_SCAN_HEAD_SQL@, pii_conditions(pii_patterns().len()));
    lemma_placeholder_count_concat(
        PII_SCAN_HEAD_SQL@ + pii_conditions(pii_patterns().len()),
        ")"@,
    );
}

} // verus!
