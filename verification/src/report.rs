//! The text answers of the tools: markdown tables, statistics, counts and
//! query results.

use vstd::prelude::*;
use crate::json::{ColumnValue, json_pretty_rows, rows_pairs, to_json_rows};
use crate::text::{decimal, push_decimal, push_signed_decimal, push_text, signed_decimal, texts_of};

verus! {

/// The pieces joined by a separator.
pub open spec fn joined(pieces: Seq<Seq<char>>, sep: Seq<char>) -> Seq<char>
    decreases pieces.len(),
{
    if pieces.len() == 0 {
        Seq::empty()
    } else if pieces.len() == 1 {
        pieces[0]
    } else {
        joined(pieces.drop_last(), sep) + sep + pieces.last()
    }
}

/// One line of a markdown table: the cells joined by ` | `, then a newline.
pub open spec fn table_line(cells: Seq<Seq<char>>) -> Seq<char> {
    joined(cells, " | "@) + "\n"@
}

/// The lines of a markdown table, one per row.
pub open spec fn table_lines(rows: Seq<Seq<Seq<char>>>) -> Seq<char>
    decreases rows.len(),
{
    if rows.len() == 0 {
        Seq::empty()
    } else {
        table_lines(rows.drop_last()) + table_line(rows.last())
    }
}


/// Appends one markdown table line made of `cells`.
pub fn push_table_line(out: &mut String, cells: &Vec<String>)
    ensures
        final(out)@ == old(out)@ + table_line(texts_of(cells@)),
{
    let ghost start = out@;
    let n = cells.len();
    for i in 0..n
        invariant
            n == cells@.len(),
            out@ == start + joined(texts_of(cells@).take(i as int), " | "@),
    {
        let ghost before = out@;
        if i > 0 {
            push_text(out, " | ");
        }
        push_text(out, cells[i].as_str());
        proof {
            let ts = texts_of(cells@);
            let p = ts.take(i + 1);
            assert(p.drop_last() =~= ts.take(i as int));
            assert(p.last() == cells@[i as int]@);
            if i == 0 {
                assert(joined(p, " | "@) == p[0]);
                assert(ts.take(0) =~= Seq::<Seq<char>>::empty());
            }
        }
    }
    push_text(out, "\n");
    proof {
        assert(texts_of(cells@).take(n as int) =~= texts_of(cells@));
    }
}

/// The definition of one column of a table.
#[derive(Debug)]
pub struct ColumnDescription {
    pub field: String,
    pub column_type: String,
    /// `YES` or `NO`.
    pub null: String,
    /// `PRI`, `UNI`, `MUL` or empty.
    pub key: String,
    pub default: String,
    pub extra: String,
    pub comment: String,
}

/// The cells that show a column's definition.
pub open spec fn description_cells(d: ColumnDescription) -> Seq<Seq<char>> {
    seq![d.field@, d.column_type@, d.null@, d.key@, d.default@, d.extra@, d.comment@]
}

/// The head of the report on a table's columns.
pub const DESCRIBE_HEADER: &'static str = "Field | Type | Null | Key | Default | Extra | Comment\n--- | --- | --- | --- | --- | --- | ---\n";

/// The report on a table's columns: a markdown table with one line per column.
pub open spec fn describe_report_text(rows: Seq<ColumnDescription>) -> Seq<char> {
    DESCRIBE_HEADER@ + table_lines(rows.map_values(|d: ColumnDescription| description_cells(d)))
}

/// The lines of a table given as rows of cells.
pub open spec fn row_cells(rows: Seq<Vec<String>>) -> Seq<Seq<Seq<char>>> {
    rows.map_values(|r: Vec<String>| texts_of(r@))
}

/// A header followed by one markdown line per row.
pub fn markdown_report(header: &str, rows: &Vec<Vec<String>>) -> (r: String)
    ensures
        r@ == header@ + table_lines(row_cells(rows@)),
{
    let mut out = String::new();
    push_text(&mut out, header);
    let n = rows.len();
    for i in 0..n
        invariant
            n == rows@.len(),
            out@ == header@ + table_lines(row_cells(rows@).take(i as int)),
    {
        push_table_line(&mut out, &rows[i]);
        proof {
            let c = row_cells(rows@);
            assert(c.take(i + 1).drop_last() =~= c.take(i as int));
            assert(c.take(i + 1).last() == texts_of(rows@[i as int]@));
        }
    }
    proof {
        assert(row_cells(rows@).take(n as int) =~= row_cells(rows@));
    }
    out
}

/// The error on a table that does not exist.
pub open spec fn no_such_table_text(schema: Seq<char>, table: Seq<char>) -> Seq<char> {
    "Table '"@ + schema + "."@ + table + "' doesn't exist"@
}

/// The report on the columns of `schema`.`table`. A table has at least one
/// column, so when no column is found the table does not exist and the
/// answer is that error.
pub fn describe_report(schema: &str, table: &str, rows: &Vec<ColumnDescription>) -> (r: Result<String, String>)
    ensures
        r is Err <==> rows@.len() == 0,
        r matches Ok(t) ==> t@ == describe_report_text(rows@),
        r matches Err(m) ==> m@ == no_such_table_text(schema@, table@),
{
    if rows.len() == 0 {
        let mut m = String::new();
        push_text(&mut m, "Table '");
        push_text(&mut m, schema);
        push_text(&mut m, ".");
        push_text(&mut m, table);
        push_text(&mut m, "' doesn't exist");
        return Err(m);
    }
    Ok(describe_lines(rows))
}

fn describe_lines(rows: &Vec<ColumnDescription>) -> (r: String)
    ensures
        r@ == describe_report_text(rows@),
{
    let mut cells: Vec<Vec<String>> = Vec::new();
    let n = rows.len();
    for i in 0..n
        invariant
            n == rows@.len(),
            cells@.len() == i,
            forall|j: int| 0 <= j < i ==> #[trigger] texts_of(cells@[j]@) == description_cells(rows@[j]),
    {
        let d = &rows[i];
        let line = vec![
            d.field.clone(),
            d.column_type.clone(),
            d.null.clone(),
            d.key.clone(),
            d.default.clone(),
            d.extra.clone(),
            d.comment.clone(),
        ];
        proof {
            assert(texts_of(line@) =~= description_cells(*d));
        }
        cells.push(line);
    }
    proof {
        assert(row_cells(cells@) =~= rows@.map_values(|d: ColumnDescription| description_cells(d)));
    }
    markdown_report(DESCRIBE_HEADER, &cells)
}


/// One table or column that matched a keyword search.
#[derive(Debug)]
pub struct SchemaMatch {
    /// `TABLE` or `COLUMN`.
    pub kind: String,
    pub schema: String,
    /// The table's name, or `table.column`.
    pub name: String,
}

/// The cells of a search match.
pub open spec fn match_cells(m: SchemaMatch) -> Seq<Seq<char>> {
    seq![m.kind@, m.schema@, m.name@]
}

/// The head of the keyword search report.
pub const SEARCH_HEADER: &'static str = "Type | Schema | Name\n--- | --- | ---\n";

/// The keyword search report: one line per match.
pub open spec fn search_report_text(rows: Seq<SchemaMatch>) -> Seq<char> {
    SEARCH_HEADER@ + table_lines(rows.map_values(|m: SchemaMatch| match_cells(m)))
}

/// The keyword search report.
pub fn search_report(rows: &Vec<SchemaMatch>) -> (r: String)
    ensures
        r@ == search_report_text(rows@),
{
    let mut cells: Vec<Vec<String>> = Vec::new();
    let n = rows.len();
    for i in 0..n
        invariant
            n == rows@.len(),
            cells@.len() == i,
            forall|j: int| 0 <= j < i ==> #[trigger] texts_of(cells@[j]@) == match_cells(rows@[j]),
    {
        let m = &rows[i];
        let line = vec![m.kind.clone(), m.schema.clone(), m.name.clone()];
        proof {
            assert(texts_of(line@) =~= match_cells(*m));
        }
        cells.push(line);
    }
    proof {
        assert(row_cells(cells@) =~= rows@.map_values(|m: SchemaMatch| match_cells(m)));
    }
    markdown_report(SEARCH_HEADER, &cells)
}

/// One row of `SHOW INDEX`.
#[derive(Debug)]
pub struct IndexEntry {
    pub table: String,
    pub non_unique: i32,
    pub key_name: String,
    pub seq_in_index: i32,
    pub column_name: String,
    pub index_type: String,
    pub comment: String,
}

/// The cells of an index row; the numbers in decimal.
pub open spec fn index_cells(e: IndexEntry) -> Seq<Seq<char>> {
    seq![
        e.table@,
        signed_decimal(e.non_unique as int),
        e.key_name@,
        signed_decimal(e.seq_in_index as int),
        e.column_name@,
        e.index_type@,
        e.comment@,
    ]
}

/// The head of the index report.
pub const INDEX_HEADER: &'static str = "Table | Non_unique | Key_name | Seq_in_index | Column_name | Index_type | Comment\n--- | --- | --- | --- | --- | --- | ---\n";

/// The index report: one line per index column.
pub open spec fn index_report_text(rows: Seq<IndexEntry>) -> Seq<char> {
    INDEX_HEADER@ + table_lines(rows.map_values(|e: IndexEntry| index_cells(e)))
}

/// Decimal text of a signed number.
pub fn signed_decimal_string(n: i64) -> (s: String)
    ensures
        s@ == signed_decimal(n as int),
{
    let mut s = String::new();
    push_signed_decimal(&mut s, n);
    s
}

/// The index report.
pub fn index_report(rows: &Vec<IndexEntry>) -> (r: String)
    ensures
        r@ == index_report_text(rows@),
{
    let mut cells: Vec<Vec<String>> = Vec::new();
    let n = rows.len();
    for i in 0..n
        invariant
            n == rows@.len(),
            cells@.len() == i,
            forall|j: int| 0 <= j < i ==> #[trigger] texts_of(cells@[j]@) == index_cells(rows@[j]),
    {
        let e = &rows[i];
        let line = vec![
            e.table.clone(),
            signed_decimal_string(e.non_unique as i64),
            e.key_name.clone(),
            signed_decimal_string(e.seq_in_index as i64),
            e.column_name.clone(),
            e.index_type.clone(),
            e.comment.clone(),
        ];
        proof {
            assert(texts_of(line@) =~= index_cells(*e));
        }
        cells.push(line);
    }
    proof {
        assert(row_cells(cells@) =~= rows@.map_values(|e: IndexEntry| index_cells(e)));
    }
    markdown_report(INDEX_HEADER, &cells)
}

/// One foreign key column of a table.
#[derive(Debug)]
pub struct ForeignKey {
    pub column: String,
    pub referenced_schema: String,
    pub referenced_table: String,
    pub referenced_column: String,
}

/// The cells of a foreign key.
pub open spec fn foreign_key_cells(k: ForeignKey) -> Seq<Seq<char>> {
    seq![k.column@, k.referenced_schema@, k.referenced_table@, k.referenced_column@]
}

/// The head of the foreign key report.
pub const FOREIGN_KEY_HEADER: &'static str = "Column | Ref Schema | Ref Table | Ref Column\n--- | --- | --- | ---\n";

/// The foreign key report: one line per key column.
pub open spec fn foreign_key_report_text(rows: Seq<ForeignKey>) -> Seq<char> {
    FOREIGN_KEY_HEADER@ + table_lines(rows.map_values(|k: ForeignKey| foreign_key_cells(k)))
}

/// The foreign key report.
pub fn foreign_key_report(rows: &Vec<ForeignKey>) -> (r: String)
    ensures
        r@ == foreign_key_report_text(rows@),
{
    let mut cells: Vec<Vec<String>> = Vec::new();
    let n = rows.len();
    for i in 0..n
        invariant
            n == rows@.len(),
            cells@.len() == i,
            forall|j: int| 0 <= j < i ==> #[trigger] texts_of(cells@[j]@) == foreign_key_cells(rows@[j]),
    {
        let k = &rows[i];
        let line = vec![
            k.column.clone(),
            k.referenced_schema.clone(),
            k.referenced_table.clone(),
            k.referenced_column.clone(),
        ];
        proof {
            assert(texts_of(line@) =~= foreign_key_cells(*k));
        }
        cells.push(line);
    }
    proof {
        assert(row_cells(cells@) =~= rows@.map_values(|k: ForeignKey| foreign_key_cells(k)));
    }
    markdown_report(FOREIGN_KEY_HEADER, &cells)
}

/// A column that may hold personal data.
#[derive(Debug)]
pub struct SensitiveColumn {
    pub table: String,
    pub column: String,
    pub comment: String,
}

/// The cells of a sensitive column.
pub open spec fn sensitive_cells(c: SensitiveColumn) -> Seq<Seq<char>> {
    seq![c.table@, c.column@, c.comment@]
}

/// The head of the personal data report.
pub const PII_HEADER: &'static str = "Detected Potential PII Columns:\n\nTable | Column | Comment\n--- | --- | ---\n";

/// The personal data report: one line per column found.
pub open spec fn pii_report_text(rows: Seq<SensitiveColumn>) -> Seq<char> {
    PII_HEADER@ + table_lines(rows.map_values(|c: SensitiveColumn| sensitive_cells(c)))
}

/// The personal data report.
pub fn pii_report(rows: &Vec<SensitiveColumn>) -> (r: String)
    ensures
        r@ == pii_report_text(rows@),
{
    let mut cells: Vec<Vec<String>> = Vec::new();
    let n = rows.len();
    for i in 0..n
        invariant
            n == rows@.len(),
            cells@.len() == i,
            forall|j: int| 0 <= j < i ==> #[trigger] texts_of(cells@[j]@) == sensitive_cells(rows@[j]),
    {
        let c = &rows[i];
        let line = vec![c.table.clone(), c.column.clone(), c.comment.clone()];
        proof {
            assert(texts_of(line@) =~= sensitive_cells(*c));
        }
        cells.push(line);
    }
    proof {
        assert(row_cells(cells@) =~= rows@.map_values(|c: SensitiveColumn| sensitive_cells(c)));
    }
    markdown_report(PII_HEADER, &cells)
}

/// The text that `format!("{:?}", s)` gives for a string: Rust's debug form,
/// in double quotes with escapes.
pub uninterp spec fn debug_quoted(s: Seq<char>) -> Seq<char>;

/// Calls `<str as Debug>::fmt` through `format!("{:?}", s)`; the result is
/// the text the name stands for.
#[verifier::external_body]
fn debug_quote(s: &str) -> (r: String)
    ensures
        r@ == debug_quoted(s@),
{
    format!("{:?}", s)
}

/// The debug form of an optional string: `None`, or `Some(` its quoted
/// form `)`.
pub open spec fn optional_debug_text(o: Option<Seq<char>>) -> Seq<char> {
    match o {
        Some(s) => "Some("@ + debug_quoted(s) + ")"@,
        None => "None"@,
    }
}

/// What is known of a table's size and history.
#[derive(Debug)]
pub struct TableStats {
    pub rows: Option<u64>,
    pub data_length: Option<u64>,
    pub index_length: Option<u64>,
    pub create_time: Option<String>,
    pub update_time: Option<String>,
    pub comment: String,
}

/// A number that may be unknown, with 0 standing in for it.
pub open spec fn or_zero(o: Option<u64>) -> nat {
    match o {
        Some(v) => v as nat,
        None => 0,
    }
}

/// The statistics report: rows, data and index size in whole KB (1024
/// bytes, rounded down), creation and update time in debug form, comment.
pub open spec fn stats_report_text(t: TableStats) -> Seq<char> {
    "- **Rows**: "@ + decimal(or_zero(t.rows)) + "\n"@
    + "- **Data Size**: "@ + decimal(or_zero(t.data_length) / 1024) + " KB\n"@
    + "- **Index Size**: "@ + decimal(or_zero(t.index_length) / 1024) + " KB\n"@
    + "- **Created**: "@ + optional_debug_text(crate::config::optional_text(t.create_time)) + "\n"@
    + "- **Updated**: "@ + optional_debug_text(crate::config::optional_text(t.update_time)) + "\n"@
    + "- **Comment**: "@ + t.comment@ + "\n"@
}

fn unwrap_or_zero(o: Option<u64>) -> (v: u64)
    ensures
        v as nat == or_zero(o),
{
    match o {
        Some(v) => v,
        None => 0,
    }
}

fn push_optional_debug(out: &mut String, o: &Option<String>)
    ensures
        final(out)@ == old(out)@ + optional_debug_text(crate::config::optional_text(*o)),
{
    match o {
        Some(s) => {
            push_text(out, "Some(");
            let q = debug_quote(s.as_str());
            push_text(out, q.as_str());
            push_text(out, ")");
        },
        None => push_text(out, "None"),
    }
}

/// The statistics report of a table.
pub fn stats_report(t: &TableStats) -> (r: String)
    ensures
        r@ == stats_report_text(*t),
{
    let mut out = String::new();
    push_text(&mut out, "- **Rows**: ");
    push_decimal(&mut out, unwrap_or_zero(t.rows));
    push_text(&mut out, "\n");
    push_text(&mut out, "- **Data Size**: ");
    push_decimal(&mut out, unwrap_or_zero(t.data_length) / 1024);
    push_text(&mut out, " KB\n");
    push_text(&mut out, "- **Index Size**: ");
    push_decimal(&mut out, unwrap_or_zero(t.index_length) / 1024);
    push_text(&mut out, " KB\n");
    push_text(&mut out, "- **Created**: ");
    push_optional_debug(&mut out, &t.create_time);
    push_text(&mut out, "\n");
    push_text(&mut out, "- **Updated**: ");
    push_optional_debug(&mut out, &t.update_time);
    push_text(&mut out, "\n");
    push_text(&mut out, "- **Comment**: ");
    push_text(&mut out, t.comment.as_str());
    push_text(&mut out, "\n");
    out
}

/// The answer to a statement that changed the schema or data.
pub fn ddl_report(rows_affected: u64) -> (r: String)
    ensures
        r@ == "Execution successful. Rows affected: "@ + decimal(rows_affected as nat),
{
    let mut out = String::new();
    push_text(&mut out, "Execution successful. Rows affected: ");
    push_decimal(&mut out, rows_affected);
    out
}

/// The answer to a statement run in a transaction that was rolled back.
pub fn dry_run_report(rows_affected: u64) -> (r: String)
    ensures
        r@ == "Dry run successful (Transaction rolled back). Rows that would be affected: "@
            + decimal(rows_affected as nat),
{
    let mut out = String::new();
    push_text(&mut out, "Dry run successful (Transaction rolled back). Rows that would be affected: ");
    push_decimal(&mut out, rows_affected);
    out
}

/// The text that stands for a result value that cannot be read as text.
pub const UNREADABLE_VALUE: &'static str = "<blobs/unknown>";

/// The default that the column report shows when the server's default
/// cannot be read as text.
pub const UNREADABLE_DEFAULT: &'static str = "NULL";

/// The answer to a query without result rows.
pub const NO_ROWS: &'static str = "No rows returned";

/// The answer to a query: a note when it returned no rows, and otherwise the
/// rows as pretty-printed JSON objects.
pub fn query_report(rows: &Vec<Vec<ColumnValue>>) -> (r: String)
    ensures
        rows@.len() == 0 ==> r@ == NO_ROWS@,
        rows@.len() > 0 ==> r@ == json_pretty_rows(rows_pairs(rows@)),
{
    if rows.len() == 0 {
        String::from_str(NO_ROWS)
    } else {
        match to_json_rows(rows) {
            Some(t) => t,
            None => String::new(),
        }
    }
}
} // verus!
