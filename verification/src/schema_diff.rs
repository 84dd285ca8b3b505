//! Comparing the structure of two schemas: tables that only one side has,
//! and columns that are missing or differ in type or nullability.

use vstd::prelude::*;
use crate::text::{chars_of, push_text, texts_of};

verus! {

/// Name, type and nullability of a column.
#[derive(Debug)]
pub struct ColumnShape {
    pub name: String,
    pub column_type: String,
    pub is_nullable: String,
}

/// The columns of a table that both schemas have, on either side.
#[derive(Debug)]
pub struct TableComparison {
    pub table: String,
    pub source_columns: Vec<ColumnShape>,
    pub target_columns: Vec<ColumnShape>,
}

/// The number of newline characters.
pub open spec fn newline_count(s: Seq<char>) -> nat
    decreases s.len(),
{
    if s.len() == 0 {
        0
    } else {
        newline_count(s.drop_last()) + if s.last() == '\n' { 1nat } else { 0nat }
    }
}

/// The number of lines that `str::lines` yields: one per newline, and one
/// more for text after the last newline.
pub open spec fn line_count(s: Seq<char>) -> nat {
    newline_count(s) + if s.len() > 0 && s.last() != '\n' { 1nat } else { 0nat }
}

/// A text has no more newlines than characters.
pub proof fn lemma_newline_count_bound(s: Seq<char>)
    ensures
        newline_count(s) <= s.len(),
    decreases s.len(),
{
    if s.len() > 0 {
        lemma_newline_count_bound(s.drop_last());
    }
}

/// Counts the lines of a text as `str::lines` does.
pub fn count_lines(s: &str) -> (n: usize)
    ensures
        n == line_count(s@),
{
    let chars = chars_of(s);
    let len = chars.len();
    let mut count: usize = 0;
    for i in 0..len
        invariant
            len == chars@.len(),
            count == newline_count(chars@.take(i as int)),
            count <= i,
    {
        proof {
            assert(chars@.take(i + 1).drop_last() =~= chars@.take(i as int));
        }
        if chars[i] == '\n' {
            count = count + 1;
        }
    }
    proof {
        assert(chars@.take(len as int) =~= chars@);
    }
    if len > 0 && chars[len - 1] != '\n' {
        proof {
            lemma_newline_count_bound(chars@.drop_last());
            assert(newline_count(chars@) == newline_count(chars@.drop_last()));
        }
        count + 1
    } else {
        count
    }
}

/// Whether a list of strings holds this text.
pub fn holds_text(list: &Vec<String>, item: &String) -> (r: bool)
    ensures
        r == texts_of(list@).contains(item@),
{
    let n = list.len();
    for i in 0..n
        invariant
            n == list@.len(),
            forall|j: int| 0 <= j < i ==> #[trigger] list@[j]@ != item@,
    {
        if list[i] == *item {
            proof {
                assert(texts_of(list@)[i as int] == item@);
            }
            return true;
        }
    }
    proof {
        if texts_of(list@).contains(item@) {
            let j = choose|j: int| 0 <= j < list@.len() && texts_of(list@)[j] == item@;
            assert(list@[j]@ == item@);
        }
    }
    false
}

/// The tables of the source that the target has too, in source order.
pub open spec fn common_table_texts(source: Seq<Seq<char>>, target: Seq<Seq<char>>) -> Seq<Seq<char>>
    decreases source.len(),
{
    if source.len() == 0 {
        Seq::empty()
    } else {
        let rest = common_table_texts(source.drop_last(), target);
        if target.contains(source.last()) {
            rest.push(source.last())
        } else {
            rest
        }
    }
}

/// The tables of the source that the target has too, in source order: those
/// whose columns are to be compared.
pub fn common_tables(source: &Vec<String>, target: &Vec<String>) -> (r: Vec<String>)
    ensures
        texts_of(r@) == common_table_texts(texts_of(source@), texts_of(target@)),
{
    let mut r: Vec<String> = Vec::new();
    let n = source.len();
    for i in 0..n
        invariant
            n == source@.len(),
            texts_of(r@) == common_table_texts(texts_of(source@).take(i as int), texts_of(target@)),
    {
        proof {
            let s = texts_of(source@);
            assert(s.take(i + 1).drop_last() =~= s.take(i as int));
            assert(s.take(i + 1).last() == source@[i as int]@);
        }
        if holds_text(target, &source[i]) {
            r.push(source[i].clone());
            proof {
                assert(texts_of(r@) =~= texts_of(r@).drop_last().push(source@[i as int]@));
            }
        }
    }
    proof {
        assert(texts_of(source@).take(n as int) =~= texts_of(source@));
    }
    r
}

/// The line on a table that only the source has.
pub open spec fn missing_table_line(table: Seq<char>) -> Seq<char> {
    "- [MISSING TABLE] `"@ + table + "` exists in source but not in target.\n"@
}

/// The line on a table that only the target has.
pub open spec fn extra_table_line(table: Seq<char>) -> Seq<char> {
    "- [EXTRA TABLE] `"@ + table + "` exists in target but not in source.\n"@
}

/// One line per table of `tables` that `others` lacks, in order, each made
/// by `line`.
pub open spec fn lone_table_lines(
    tables: Seq<Seq<char>>,
    others: Seq<Seq<char>>,
    missing: bool,
) -> Seq<char>
    decreases tables.len(),
{
    if tables.len() == 0 {
        Seq::empty()
    } else {
        let rest = lone_table_lines(tables.drop_last(), others, missing);
        if others.contains(tables.last()) {
            rest
        } else if missing {
            rest + missing_table_line(tables.last())
        } else {
            rest + extra_table_line(tables.last())
        }
    }
}

/// The first column of this name.
#[verifier::opaque]
pub open spec fn first_named(columns: Seq<ColumnShape>, name: Seq<char>) -> Option<ColumnShape> {
    if exists|i: int| 0 <= i < columns.len() && #[trigger] columns[i].name@ == name {
        let i = choose|i: int|
            0 <= i < columns.len() && columns[i].name@ == name && forall|j: int|
                0 <= j < i ==> #[trigger] columns[j].name@ != name;
        Some(columns[i])
    } else {
        None
    }
}

/// The line on a column that the target's table lacks.
pub open spec fn missing_column_line(table: Seq<char>, column: Seq<char>) -> Seq<char> {
    "- [MISSING COLUMN] Table `"@ + table + "`: Column `"@ + column + "` is missing in target.\n"@
}

/// The line on a column whose type or nullability differs.
pub open spec fn differing_column_line(table: Seq<char>, s: ColumnShape, t: ColumnShape) -> Seq<char> {
    "- [DIFF COLUMN] Table `"@ + table + "`: Column `"@ + s.name@ + "` type/null mismatch (Source: "@
        + s.column_type@ + " "@ + s.is_nullable@ + ", Target: "@ + t.column_type@ + " "@
        + t.is_nullable@ + ")\n"@
}

/// What a source column contributes: a line when the target's table has no
/// column of its name, a line when the first target column of its name
/// differs in type or nullability, and nothing otherwise.
pub open spec fn column_line(table: Seq<char>, s: ColumnShape, targets: Seq<ColumnShape>) -> Seq<char> {
    match first_named(targets, s.name@) {
        None => missing_column_line(table, s.name@),
        Some(t) => if s.column_type@ != t.column_type@ || s.is_nullable@ != t.is_nullable@ {
            differing_column_line(table, s, t)
        } else {
            Seq::empty()
        },
    }
}

/// The lines of the source columns of one table, in order.
pub open spec fn column_lines(table: Seq<char>, sources: Seq<ColumnShape>, targets: Seq<ColumnShape>) -> Seq<char>
    decreases sources.len(),
{
    if sources.len() == 0 {
        Seq::empty()
    } else {
        column_lines(table, sources.drop_last(), targets) + column_line(table, sources.last(), targets)
    }
}

/// The line on a column that only the target's table has.
pub open spec fn extra_column_line(table: Seq<char>, column: Seq<char>) -> Seq<char> {
    "- [EXTRA COLUMN] Table `"@ + table + "`: Column `"@ + column + "` exists in target but not in source.\n"@
}

/// One line per target column that no source column of the table is named
/// like, in target order.
pub open spec fn extra_column_lines(table: Seq<char>, targets: Seq<ColumnShape>, sources: Seq<ColumnShape>) -> Seq<char>
    decreases targets.len(),
{
    if targets.len() == 0 {
        Seq::empty()
    } else {
        let rest = extra_column_lines(table, targets.drop_last(), sources);
        if first_named(sources, targets.last().name@) is None {
            rest + extra_column_line(table, targets.last().name@)
        } else {
            rest
        }
    }
}

/// The lines of one compared table: those of its source columns, then one
/// for each column that only the target has.
pub open spec fn table_comparison_lines(table: Seq<char>, sources: Seq<ColumnShape>, targets: Seq<ColumnShape>) -> Seq<char> {
    column_lines(table, sources, targets) + extra_column_lines(table, targets, sources)
}

/// The lines of all compared tables, in order.
pub open spec fn comparison_lines(comparisons: Seq<TableComparison>) -> Seq<char>
    decreases comparisons.len(),
{
    if comparisons.len() == 0 {
        Seq::empty()
    } else {
        let c = comparisons.last();
        comparison_lines(comparisons.drop_last()) + table_comparison_lines(
            c.table@,
            c.source_columns@,
            c.target_columns@,
        )
    }
}

/// The head of the comparison.
pub open spec fn diff_header(source_conn: Seq<char>, target_conn: Seq<char>) -> Seq<char> {
    "Schema Diff: "@ + source_conn + " vs "@ + target_conn + "\n\n"@
}

/// The full comparison text before the check for differences.
pub open spec fn diff_text(
    source_conn: Seq<char>,
    target_conn: Seq<char>,
    source_tables: Seq<Seq<char>>,
    target_tables: Seq<Seq<char>>,
    comparisons: Seq<TableComparison>,
) -> Seq<char> {
    diff_header(source_conn, target_conn) + lone_table_lines(source_tables, target_tables, true)
        + lone_table_lines(target_tables, source_tables, false) + comparison_lines(comparisons)
}

/// The answer when nothing differs.
pub const NO_DIFFERENCES: &'static str = "No major structural differences found between schemas.";

/// The comparison report: the comparison text, or the note that nothing
/// differs when that text has no more than two lines (the head's).
pub open spec fn schema_diff_report_text(
    source_conn: Seq<char>,
    target_conn: Seq<char>,
    source_tables: Seq<Seq<char>>,
    target_tables: Seq<Seq<char>>,
    comparisons: Seq<TableComparison>,
) -> Seq<char> {
    let d = diff_text(source_conn, target_conn, source_tables, target_tables, comparisons);
    if line_count(d) <= 2 {
        NO_DIFFERENCES@
    } else {
        d
    }
}

fn push_lone_tables(out: &mut String, tables: &Vec<String>, others: &Vec<String>, missing: bool)
    ensures
        final(out)@ == old(out)@ + lone_table_lines(texts_of(tables@), texts_of(others@), missing),
{
    let ghost start = out@;
    let n = tables.len();
    for i in 0..n
        invariant
            n == tables@.len(),
            out@ == start + lone_table_lines(texts_of(tables@).take(i as int), texts_of(others@), missing),
    {
        proof {
            let s = texts_of(tables@);
            assert(s.take(i + 1).drop_last() =~= s.take(i as int));
            assert(s.take(i + 1).last() == tables@[i as int]@);
        }
        let t = &tables[i];
        if !holds_text(others, t) {
            if missing {
                push_text(out, "- [MISSING TABLE] `");
                push_text(out, t.as_str());
                push_text(out, "` exists in source but not in target.\n");
            } else {
                push_text(out, "- [EXTRA TABLE] `");
                push_text(out, t.as_str());
                push_text(out, "` exists in target but not in source.\n");
            }
        }
    }
    proof {
        assert(texts_of(tables@).take(n as int) =~= texts_of(tables@));
    }
}

/// The position of the first column of this name.
fn first_position(columns: &Vec<ColumnShape>, name: &String) -> (r: Option<usize>)
    ensures
        match r {
            Some(i) => i < columns@.len() && first_named(columns@, name@) === Some(columns@[i as int]),
            None => first_named(columns@, name@) is None,
        },
{
    proof {
        reveal(first_named);
    }
    let n = columns.len();
    for i in 0..n
        invariant
            n == columns@.len(),
            forall|j: int| 0 <= j < i ==> #[trigger] columns@[j].name@ != name@,
    {
        if columns[i].name == *name {
            proof {
                reveal(first_named);
                let k = choose|k: int|
                    0 <= k < columns@.len() && columns@[k].name@ == name@ && forall|j: int|
                        0 <= j < k ==> #[trigger] columns@[j].name@ != name@;
                assert(columns@[i as int].name@ == name@);
                if k < i {
                } else if k > i {
                    assert(columns@[i as int].name@ != name@);
                }
            }
            return Some(i);
        }
    }
    proof {
        reveal(first_named);
    }
    None
}

fn push_missing_column_line(out: &mut String, table: &String, column: &String)
    ensures
        final(out)@ == old(out)@ + missing_column_line(table@, column@),
{
    push_text(out, "- [MISSING COLUMN] Table `");
    push_text(out, table.as_str());
    push_text(out, "`: Column `");
    push_text(out, column.as_str());
    push_text(out, "` is missing in target.\n");
}

fn push_differing_column_line(out: &mut String, table: &String, s: &ColumnShape, t: &ColumnShape)
    ensures
        final(out)@ == old(out)@ + differing_column_line(table@, *s, *t),
{
    push_text(out, "- [DIFF COLUMN] Table `");
    push_text(out, table.as_str());
    push_text(out, "`: Column `");
    push_text(out, s.name.as_str());
    push_text(out, "` type/null mismatch (Source: ");
    push_text(out, s.column_type.as_str());
    push_text(out, " ");
    push_text(out, s.is_nullable.as_str());
    push_text(out, ", Target: ");
    push_text(out, t.column_type.as_str());
    push_text(out, " ");
    push_text(out, t.is_nullable.as_str());
    push_text(out, ")\n");
}

fn push_column_lines(out: &mut String, table: &String, sources: &Vec<ColumnShape>, targets: &Vec<ColumnShape>)
    ensures
        final(out)@ == old(out)@ + column_lines(table@, sources@, targets@),
{
    let ghost start = out@;
    let n = sources.len();
    for i in 0..n
        invariant
            n == sources@.len(),
            out@ == start + column_lines(table@, sources@.take(i as int), targets@),
    {
        proof {
            assert(sources@.take(i + 1).drop_last() =~= sources@.take(i as int));
            assert(sources@.take(i + 1).last() == sources@[i as int]);
        }
        let s = &sources[i];
        let ghost before = out@;
        proof {
            assert(column_lines(table@, sources@.take(i + 1), targets@) == column_lines(
                table@,
                sources@.take(i as int),
                targets@,
            ) + column_line(table@, *s, targets@));
        }
        match first_position(targets, &s.name) {
            None => {
                push_missing_column_line(out, table, &s.name);
                proof {
                    assert(column_line(table@, *s, targets@) == missing_column_line(table@, s.name@));
                }
            },
            Some(j) => {
                let t = &targets[j];
                let same = s.column_type == t.column_type && s.is_nullable == t.is_nullable;
                if !same {
                    push_differing_column_line(out, table, s, t);
                    proof {
                        assert(column_line(table@, *s, targets@) == differing_column_line(table@, *s, *t));
                    }
                } else {
                    proof {
                        assert(column_line(table@, *s, targets@) == Seq::<char>::empty());
                        assert(out@ + Seq::<char>::empty() =~= out@);
                    }
                }
            },
        }
        proof {
            assert(out@ == before + column_line(table@, *s, targets@));
        }
    }
    proof {
        assert(sources@.take(n as int) =~= sources@);
    }
}

fn push_extra_column_lines(out: &mut String, table: &String, targets: &Vec<ColumnShape>, sources: &Vec<ColumnShape>)
    ensures
        final(out)@ == old(out)@ + extra_column_lines(table@, targets@, sources@),
{
    let ghost start = out@;
    let n = targets.len();
    for i in 0..n
        invariant
            n == targets@.len(),
            out@ == start + extra_column_lines(table@, targets@.take(i as int), sources@),
    {
        proof {
            assert(targets@.take(i + 1).drop_last() =~= targets@.take(i as int));
            assert(targets@.take(i + 1).last() == targets@[i as int]);
        }
        let t = &targets[i];
        if first_position(sources, &t.name).is_none() {
            push_text(out, "- [EXTRA COLUMN] Table `");
            push_text(out, table.as_str());
            push_text(out, "`: Column `");
            push_text(out, t.name.as_str());
            push_text(out, "` exists in target but not in source.\n");
        }
    }
    proof {
        assert(targets@.take(n as int) =~= targets@);
    }
}

/// Compares two schemas: the tables that only the source has, then those
/// that only the target has, then for each compared table the source
/// columns that the target lacks or that differ in type or nullability,
/// and the columns that only the target has.
/// `comparisons` holds the columns of the tables both sides have, as
/// [`common_tables`] lists them.
pub fn schema_diff_report(
    source_conn: &str,
    target_conn: &str,
    source_tables: &Vec<String>,
    target_tables: &Vec<String>,
    comparisons: &Vec<TableComparison>,
) -> (r: String)
    ensures
        r@ == schema_diff_report_text(
            source_conn@,
            target_conn@,
            texts_of(source_tables@),
            texts_of(target_tables@),
            comparisons@,
        ),
{
    let mut out = String::new();
    push_text(&mut out, "Schema Diff: ");
    push_text(&mut out, source_conn);
    push_text(&mut out, " vs ");
    push_text(&mut out, target_conn);
    push_text(&mut out, "\n\n");
    push_lone_tables(&mut out, source_tables, target_tables, true);
    push_lone_tables(&mut out, target_tables, source_tables, false);
    let ghost before = out@;
    let n = comparisons.len();
    for i in 0..n
        invariant
            n == comparisons@.len(),
            out@ == before + comparison_lines(comparisons@.take(i as int)),
    {
        proof {
            assert(comparisons@.take(i + 1).drop_last() =~= comparisons@.take(i as int));
            assert(comparisons@.take(i + 1).last() == comparisons@[i as int]);
        }
        let c = &comparisons[i];
        let ghost mid = out@;
        push_column_lines(&mut out, &c.table, &c.source_columns, &c.target_columns);
        push_extra_column_lines(&mut out, &c.table, &c.target_columns, &c.source_columns);
        proof {
            let t = table_comparison_lines(c.table@, c.source_columns@, c.target_columns@);
            assert(comparison_lines(comparisons@.take(i + 1)) == comparison_lines(comparisons@.take(i as int)) + t);
            assert(out@ =~= mid + t);
        }
    }
    proof {
        assert(comparisons@.take(n as int) =~= comparisons@);
    }
    if count_lines(out.as_str()) <= 2 {
        String::from_str(NO_DIFFERENCES)
    } else {
        out
    }
}


/// Newlines of two texts put together add up.
pub proof fn lemma_newline_count_concat(a: Seq<char>, b: Seq<char>)
    ensures
        newline_count(a + b) == newline_count(a) + newline_count(b),
    decreases b.len(),
{
    if b.len() > 0 {
        lemma_newline_count_concat(a, b.drop_last());
        assert((a + b).drop_last() =~= a + b.drop_last());
    } else {
        assert(a + b =~= a);
    }
}

/// A text without newline characters has no newlines.
pub proof fn lemma_newline_free(s: Seq<char>)
    requires
        forall|i: int| 0 <= i < s.len() ==> s[i] != '\n',
    ensures
        newline_count(s) == 0,
    decreases s.len(),
{
    if s.len() > 0 {
        lemma_newline_free(s.drop_last());
    }
}

/// Every table of `tables` is in `others`: no table is alone.
proof fn lemma_no_lone_tables(tables: Seq<Seq<char>>, others: Seq<Seq<char>>, missing: bool)
    requires
        forall|i: int| 0 <= i < tables.len() ==> others.contains(#[trigger] tables[i]),
    ensures
        lone_table_lines(tables, others, missing) == Seq::<char>::empty(),
    decreases tables.len(),
{
    if tables.len() > 0 {
        let p = tables.drop_last();
        assert forall|i: int| 0 <= i < p.len() implies others.contains(#[trigger] p[i]) by {
            assert(p[i] == tables[i]);
        }
        lemma_no_lone_tables(p, others, missing);
        assert(others.contains(tables[tables.len() - 1]));
    }
}

/// No two columns share a name.
pub open spec fn column_names_distinct(columns: Seq<ColumnShape>) -> bool {
    forall|i: int, j: int|
        0 <= i < columns.len() && 0 <= j < columns.len() && i != j ==> #[trigger] columns[i].name@
            != #[trigger] columns[j].name@
}

/// Compared with itself, a table whose column names are distinct shows no
/// column line.
proof fn lemma_same_columns(table: Seq<char>, sources: Seq<ColumnShape>, targets: Seq<ColumnShape>)
    requires
        column_names_distinct(targets),
        sources.len() <= targets.len(),
        forall|i: int| 0 <= i < sources.len() ==> #[trigger] sources[i] === targets[i],
    ensures
        column_lines(table, sources, targets) == Seq::<char>::empty(),
    decreases sources.len(),
{
    if sources.len() > 0 {
        let p = sources.drop_last();
        assert forall|i: int| 0 <= i < p.len() implies #[trigger] p[i] === targets[i] by {
            assert(p[i] == sources[i]);
        }
        lemma_same_columns(table, p, targets);
        let k = sources.len() - 1;
        let s = sources.last();
        assert(s === targets[k]);
        reveal(first_named);
        let c = choose|c: int|
            0 <= c < targets.len() && targets[c].name@ == s.name@ && forall|j: int|
                0 <= j < c ==> #[trigger] targets[j].name@ != s.name@;
        assert(targets[k].name@ == s.name@);
        if c != k {
            assert(targets[c].name@ != targets[k].name@);
        }
        assert(first_named(targets, s.name@) === Some(targets[k]));
        assert(column_line(table, s, targets) == Seq::<char>::empty());
        assert(column_lines(table, sources, targets) =~= Seq::<char>::empty());
    }
}

/// Whether a table has a column of this name.
pub open spec fn has_column_named(columns: Seq<ColumnShape>, name: Seq<char>) -> bool {
    exists|k: int| 0 <= k < columns.len() && #[trigger] columns[k].name@ == name
}

/// When every target column has a source column of its name, no column
/// is reported as only the target's.
proof fn lemma_no_extra_columns(table: Seq<char>, targets: Seq<ColumnShape>, sources: Seq<ColumnShape>)
    requires
        forall|i: int| 0 <= i < targets.len() ==> has_column_named(sources, #[trigger] targets[i].name@),
    ensures
        extra_column_lines(table, targets, sources) == Seq::<char>::empty(),
    decreases targets.len(),
{
    if targets.len() > 0 {
        let p = targets.drop_last();
        assert forall|i: int| 0 <= i < p.len() implies has_column_named(sources, #[trigger] p[i].name@) by {
            assert(p[i] == targets[i]);
        }
        lemma_no_extra_columns(table, p, sources);
        let t = targets[targets.len() - 1];
        assert(has_column_named(sources, t.name@));
        reveal(first_named);
        assert(first_named(sources, t.name@) is Some);
    }
}

/// A table's columns compared with themselves show no column that only
/// the target has.
proof fn lemma_same_columns_no_extra(table: Seq<char>, columns: Seq<ColumnShape>)
    ensures
        extra_column_lines(table, columns, columns) == Seq::<char>::empty(),
{
    assert forall|i: int| 0 <= i < columns.len() implies has_column_named(columns, #[trigger] columns[i].name@) by {
        assert(columns[i].name@ == columns[i].name@);
    }
    lemma_no_extra_columns(table, columns, columns);
}

proof fn lemma_same_comparisons(comparisons: Seq<TableComparison>)
    requires
        forall|i: int| 0 <= i < comparisons.len() ==> #[trigger] comparisons[i].source_columns@
            === comparisons[i].target_columns@ && column_names_distinct(comparisons[i].target_columns@),
    ensures
        comparison_lines(comparisons) == Seq::<char>::empty(),
    decreases comparisons.len(),
{
    if comparisons.len() > 0 {
        let p = comparisons.drop_last();
        assert forall|i: int| 0 <= i < p.len() implies #[trigger] p[i].source_columns@
            === p[i].target_columns@ && column_names_distinct(p[i].target_columns@) by {
            assert(p[i] == comparisons[i]);
        }
        lemma_same_comparisons(p);
        let c = comparisons.last();
        assert(c.source_columns@ === c.target_columns@);
        assert(column_names_distinct(c.target_columns@));
        lemma_same_columns(c.table@, c.source_columns@, c.target_columns@);
        lemma_same_columns_no_extra(c.table@, c.target_columns@);
        assert(comparison_lines(comparisons) =~= Seq::<char>::empty());
    }
}

/// A schema compared with an identical one shows no difference: when both
/// sides list the same tables, every compared table has the same columns
/// (with distinct names) on both sides, and the two connection names hold no
/// newline, the report is the note that nothing differs.
pub proof fn lemma_identical_schemas_show_no_difference(
    source_conn: Seq<char>,
    target_conn: Seq<char>,
    tables: Seq<Seq<char>>,
    comparisons: Seq<TableComparison>,
)
    requires
        forall|i: int| 0 <= i < source_conn.len() ==> source_conn[i] != '\n',
        forall|i: int| 0 <= i < target_conn.len() ==> target_conn[i] != '\n',
        forall|i: int| 0 <= i < comparisons.len() ==> #[trigger] comparisons[i].source_columns@
            === comparisons[i].target_columns@ && column_names_distinct(comparisons[i].target_columns@),
    ensures
        schema_diff_report_text(source_conn, target_conn, tables, tables, comparisons) == NO_DIFFERENCES@,
{
    assert forall|i: int| 0 <= i < tables.len() implies tables.contains(#[trigger] tables[i]) by {}
    lemma_no_lone_tables(tables, tables, true);
    lemma_no_lone_tables(tables, tables, false);
    lemma_same_comparisons(comparisons);
    let h = diff_header(source_conn, target_conn);
    let d = diff_text(source_conn, target_conn, tables, tables, comparisons);
    assert(d =~= h);
    reveal_strlit("Schema Diff: ");
    reveal_strlit(" vs ");
    reveal_strlit("\n\n");
    let a = "Schema Diff: "@ + source_conn + " vs "@ + target_conn;
    assert(h =~= a + "\n\n"@);
    assert forall|i: int| 0 <= i < a.len() implies a[i] != '\n' by {
        let l1 = "Schema Diff: "@.len();
        let l2 = l1 + source_conn.len();
        let l3 = l2 + " vs "@.len();
        if i < l1 {
        } else if i < l2 {
            assert(a[i] == source_conn[i - l1]);
        } else if i < l3 {
        } else {
            assert(a[i] == target_conn[i - l3]);
        }
    }
    lemma_newline_free(a);
    lemma_newline_count_concat(a, "\n\n"@);
    assert(newline_count("\n\n"@) == 2) by {
        let t = "\n\n"@;
        assert(t.len() == 2 && t[0] == '\n' && t[1] == '\n');
        let t1 = t.drop_last();
        assert(t1.len() == 1 && t1.last() == '\n');
        assert(t1.drop_last() =~= Seq::<char>::empty());
        assert(newline_count(t1.drop_last()) == 0);
        assert(newline_count(t1) == 1);
    }
    assert(line_count(d) == 2);
}
} // verus!

verus! {

/// The tables of `tables` that `others` lacks, in order.
pub open spec fn lone_tables(tables: Seq<Seq<char>>, others: Seq<Seq<char>>) -> Seq<Seq<char>>
    decreases tables.len(),
{
    if tables.len() == 0 {
        Seq::empty()
    } else {
        let rest = lone_tables(tables.drop_last(), others);
        if others.contains(tables.last()) {
            rest
        } else {
            rest.push(tables.last())
        }
    }
}

/// One table line per table, in order: `[MISSING TABLE]` lines when
/// `missing` holds, `[EXTRA TABLE]` lines otherwise.
pub open spec fn table_kind_lines(tables: Seq<Seq<char>>, missing: bool) -> Seq<char>
    decreases tables.len(),
{
    if tables.len() == 0 {
        Seq::empty()
    } else if missing {
        table_kind_lines(tables.drop_last(), missing) + missing_table_line(tables.last())
    } else {
        table_kind_lines(tables.drop_last(), missing) + extra_table_line(tables.last())
    }
}

proof fn lemma_lone_table_lines(tables: Seq<Seq<char>>, others: Seq<Seq<char>>, missing: bool)
    ensures
        lone_table_lines(tables, others, missing) == table_kind_lines(lone_tables(tables, others), missing),
        forall|t: Seq<char>| #[trigger] lone_tables(tables, others).contains(t) <==> tables.contains(t)
            && !others.contains(t),
    decreases tables.len(),
{
    if tables.len() > 0 {
        let p = tables.drop_last();
        let x = tables.last();
        lemma_lone_table_lines(p, others, missing);
        let l = lone_tables(p, others);
        if !others.contains(x) {
            assert(l.push(x).drop_last() =~= l);
            assert(l.push(x).last() == x);
        }
        assert forall|t: Seq<char>| #[trigger] lone_tables(tables, others).contains(t) <==> tables.contains(t)
            && !others.contains(t) by {
            let lt = lone_tables(tables, others);
            if tables.contains(t) && !others.contains(t) {
                let k = choose|k: int| 0 <= k < tables.len() && tables[k] == t;
                if k < tables.len() - 1 {
                    assert(p[k] == t);
                    assert(p.contains(t));
                    assert(l.contains(t));
                    let j = choose|j: int| 0 <= j < l.len() && l[j] == t;
                    if !others.contains(x) {
                        assert(l.push(x)[j] == t);
                    }
                    assert(lt.contains(t));
                } else {
                    assert(x == t);
                    assert(l.push(x)[l.len() as int] == t);
                    assert(lt.contains(t));
                }
            }
            if lt.contains(t) {
                let k = choose|k: int| 0 <= k < lt.len() && lt[k] == t;
                if others.contains(x) || k < l.len() {
                    assert(l[k] == t);
                    assert(l.contains(t));
                    let j = choose|j: int| 0 <= j < p.len() && p[j] == t;
                    assert(tables[j] == t);
                } else {
                    assert(lt[k] == x);
                    assert(tables[tables.len() - 1] == t);
                }
            }
        }
    }
}

/// Swapping the two sides of a comparison swaps its table lines: the
/// tables that one way round are reported missing (the source's tables that
/// the target lacks) are the ones that the other way round are reported
/// extra, and the other way about.
pub proof fn lemma_swapped_sides_swap_table_lines(
    source_conn: Seq<char>,
    target_conn: Seq<char>,
    source_tables: Seq<Seq<char>>,
    target_tables: Seq<Seq<char>>,
    comparisons: Seq<TableComparison>,
    swapped_comparisons: Seq<TableComparison>,
)
    ensures
        diff_text(source_conn, target_conn, source_tables, target_tables, comparisons) == diff_header(
            source_conn,
            target_conn,
        ) + table_kind_lines(lone_tables(source_tables, target_tables), true) + table_kind_lines(
            lone_tables(target_tables, source_tables),
            false,
        ) + comparison_lines(comparisons),
        diff_text(target_conn, source_conn, target_tables, source_tables, swapped_comparisons)
            == diff_header(target_conn, source_conn) + table_kind_lines(
            lone_tables(target_tables, source_tables),
            true,
        ) + table_kind_lines(lone_tables(source_tables, target_tables), false) + comparison_lines(
            swapped_comparisons,
        ),
        forall|t: Seq<char>| #[trigger] lone_tables(source_tables, target_tables).contains(t) <==> source_tables.contains(t)
            && !target_tables.contains(t),
        forall|t: Seq<char>| #[trigger] lone_tables(target_tables, source_tables).contains(t) <==> target_tables.contains(t)
            && !source_tables.contains(t),
{
    lemma_lone_table_lines(source_tables, target_tables, true);
    lemma_lone_table_lines(source_tables, target_tables, false);
    lemma_lone_table_lines(target_tables, source_tables, true);
    lemma_lone_table_lines(target_tables, source_tables, false);
}

} // verus!

verus! {

proof fn lemma_newline_count_monotone(a: Seq<char>, line: Seq<char>, b: Seq<char>)
    ensures
        newline_count(a + line + b) >= newline_count(a) + newline_count(line),
{
    lemma_newline_count_concat(a, line);
    lemma_newline_count_concat(a + line, b);
}

proof fn lemma_extra_line_ends_line(table: Seq<char>, column: Seq<char>)
    ensures
        newline_count(extra_column_line(table, column)) >= 1,
{
    reveal_strlit("` exists in target but not in source.\n");
    let l = extra_column_line(table, column);
    let tail = "` exists in target but not in source.\n"@;
    assert(tail.last() == '\n');
    assert(l.last() == '\n');
    assert(l.len() > 0);
}

proof fn lemma_extra_lines_hold(table: Seq<char>, targets: Seq<ColumnShape>, sources: Seq<ColumnShape>, j: int)
    requires
        0 <= j < targets.len(),
        !has_column_named(sources, targets[j].name@),
    ensures
        exists|a: Seq<char>, b: Seq<char>| extra_column_lines(table, targets, sources) == a + extra_column_line(
            table,
            targets[j].name@,
        ) + b,
    decreases targets.len(),
{
    reveal(first_named);
    let line = extra_column_line(table, targets[j].name@);
    let p = targets.drop_last();
    let rest = extra_column_lines(table, p, sources);
    if j == targets.len() - 1 {
        assert(first_named(sources, targets.last().name@) is None);
        assert(extra_column_lines(table, targets, sources) =~= rest + line + Seq::<char>::empty());
    } else {
        assert(p[j] == targets[j]);
        lemma_extra_lines_hold(table, p, sources, j);
        let (a, b) = choose|a: Seq<char>, b: Seq<char>| rest == a + line + b;
        if first_named(sources, targets.last().name@) is None {
            let e = extra_column_line(table, targets.last().name@);
            assert(extra_column_lines(table, targets, sources) =~= a + line + (b + e));
        } else {
            assert(extra_column_lines(table, targets, sources) == a + line + b);
        }
    }
}

proof fn lemma_comparison_lines_hold(comparisons: Seq<TableComparison>, i: int, j: int)
    requires
        0 <= i < comparisons.len(),
        0 <= j < comparisons[i].target_columns@.len(),
        !has_column_named(comparisons[i].source_columns@, comparisons[i].target_columns@[j].name@),
    ensures
        exists|a: Seq<char>, b: Seq<char>| comparison_lines(comparisons) == a + extra_column_line(
            comparisons[i].table@,
            comparisons[i].target_columns@[j].name@,
        ) + b,
    decreases comparisons.len(),
{
    let c = comparisons[i];
    let line = extra_column_line(c.table@, c.target_columns@[j].name@);
    let p = comparisons.drop_last();
    let rest = comparison_lines(p);
    let last = comparisons.last();
    let t = table_comparison_lines(last.table@, last.source_columns@, last.target_columns@);
    if i == comparisons.len() - 1 {
        lemma_extra_lines_hold(c.table@, c.target_columns@, c.source_columns@, j);
        let (a, b) = choose|a: Seq<char>, b: Seq<char>|
            extra_column_lines(c.table@, c.target_columns@, c.source_columns@) == a + line + b;
        let cl = column_lines(c.table@, c.source_columns@, c.target_columns@);
        assert(comparison_lines(comparisons) =~= (rest + cl + a) + line + b);
    } else {
        assert(p[i] == c);
        lemma_comparison_lines_hold(p, i, j);
        let (a, b) = choose|a: Seq<char>, b: Seq<char>| rest == a + line + b;
        assert(comparison_lines(comparisons) =~= a + line + (b + t));
    }
}

/// A column that only the target's table has is reported: when a compared
/// table's target side has a column that no source column is named like,
/// the report is the full comparison text (not the note that nothing
/// differs), and it holds the `[EXTRA COLUMN]` line on that column.
pub proof fn lemma_extra_column_reported(
    source_conn: Seq<char>,
    target_conn: Seq<char>,
    source_tables: Seq<Seq<char>>,
    target_tables: Seq<Seq<char>>,
    comparisons: Seq<TableComparison>,
    i: int,
    j: int,
)
    requires
        0 <= i < comparisons.len(),
        0 <= j < comparisons[i].target_columns@.len(),
        !has_column_named(comparisons[i].source_columns@, comparisons[i].target_columns@[j].name@),
    ensures
        schema_diff_report_text(source_conn, target_conn, source_tables, target_tables, comparisons)
            == diff_text(source_conn, target_conn, source_tables, target_tables, comparisons),
        line_count(diff_text(source_conn, target_conn, source_tables, target_tables, comparisons)) > 2,
        exists|a: Seq<char>, b: Seq<char>|
            schema_diff_report_text(source_conn, target_conn, source_tables, target_tables, comparisons)
                == a + extra_column_line(comparisons[i].table@, comparisons[i].target_columns@[j].name@) + b,
{
    let c = comparisons[i];
    let line = extra_column_line(c.table@, c.target_columns@[j].name@);
    lemma_comparison_lines_hold(comparisons, i, j);
    let (a, b) = choose|a: Seq<char>, b: Seq<char>| comparison_lines(comparisons) == a + line + b;
    let h = diff_header(source_conn, target_conn);
    let lt = lone_table_lines(source_tables, target_tables, true) + lone_table_lines(
        target_tables,
        source_tables,
        false,
    );
    let d = diff_text(source_conn, target_conn, source_tables, target_tables, comparisons);
    assert(d =~= (h + lt + a) + line + b);
    reveal_strlit("\n\n");
    let nn = "\n\n"@;
    assert(newline_count(nn) == 2) by {
        assert(nn.len() == 2 && nn[0] == '\n' && nn[1] == '\n');
        let t1 = nn.drop_last();
        assert(t1.len() == 1 && t1.last() == '\n');
        assert(t1.drop_last() =~= Seq::<char>::empty());
        assert(newline_count(t1.drop_last()) == 0);
        assert(newline_count(t1) == 1);
    }
    let y = "Schema Diff: "@ + source_conn + " vs "@ + target_conn;
    assert(h == y + nn);
    lemma_newline_count_concat(y, nn);
    lemma_newline_count_concat(h, lt + a);
    assert(h + lt + a =~= h + (lt + a));
    lemma_extra_line_ends_line(c.table@, c.target_columns@[j].name@);
    lemma_newline_count_monotone(h + lt + a, line, b);
    assert(newline_count(d) >= 3);
    assert(line_count(d) > 2);
}

} // verus!

verus! {

proof fn lemma_column_lines_hold(table: Seq<char>, sources: Seq<ColumnShape>, targets: Seq<ColumnShape>, k: int) -> (r: (
    Seq<char>,
    Seq<char>,
))
    requires
        0 <= k < sources.len(),
    ensures
        column_lines(table, sources, targets) == r.0 + column_line(table, sources[k], targets) + r.1,
    decreases sources.len(),
{
    let line = column_line(table, sources[k], targets);
    let p = sources.drop_last();
    let rest = column_lines(table, p, targets);
    if k == sources.len() - 1 {
        assert(column_lines(table, sources, targets) =~= rest + line + Seq::<char>::empty());
        (rest, Seq::<char>::empty())
    } else {
        assert(p[k] == sources[k]);
        let (a, b) = lemma_column_lines_hold(table, p, targets, k);
        let e = column_line(table, sources.last(), targets);
        assert(column_lines(table, sources, targets) =~= a + line + (b + e));
        (a, b + e)
    }
}

proof fn lemma_comparison_piece(comparisons: Seq<TableComparison>, i: int, a: Seq<char>, piece: Seq<char>, b: Seq<char>) -> (r: (
    Seq<char>,
    Seq<char>,
))
    requires
        0 <= i < comparisons.len(),
        table_comparison_lines(comparisons[i].table@, comparisons[i].source_columns@, comparisons[i].target_columns@)
            == a + piece + b,
    ensures
        comparison_lines(comparisons) == r.0 + piece + r.1,
    decreases comparisons.len(),
{
    let p = comparisons.drop_last();
    let rest = comparison_lines(p);
    if i == comparisons.len() - 1 {
        assert(comparison_lines(comparisons) =~= (rest + a) + piece + b);
        (rest + a, b)
    } else {
        assert(p[i] == comparisons[i]);
        let (x, y) = lemma_comparison_piece(p, i, a, piece, b);
        let last = comparisons.last();
        let t = table_comparison_lines(last.table@, last.source_columns@, last.target_columns@);
        assert(comparison_lines(comparisons) =~= x + piece + (y + t));
        (x, y + t)
    }
}

proof fn lemma_first_named_at(columns: Seq<ColumnShape>, name: Seq<char>, j: int)
    requires
        0 <= j < columns.len(),
        columns[j].name@ == name,
        forall|m: int| 0 <= m < j ==> (#[trigger] columns[m]).name@ != name,
    ensures
        first_named(columns, name) === Some(columns[j]),
{
    reveal(first_named);
    assert(exists|m: int| 0 <= m < columns.len() && #[trigger] columns[m].name@ == name) by {
        assert(columns[j].name@ == name);
    }
    let f = choose|m: int|
        0 <= m < columns.len() && columns[m].name@ == name && forall|q: int| 0 <= q < m ==> #[trigger] columns[q].name@ != name;
    assert(0 <= j < columns.len() && columns[j].name@ == name && forall|q: int| 0 <= q < j ==> #[trigger] columns[q].name@ != name) by {
        assert forall|q: int| 0 <= q < j implies #[trigger] columns[q].name@ != name by {
            assert(columns[q].name@ != name);
        }
    }
    if f < j {
        assert(columns[f].name@ != name);
    } else if f > j {
        assert(columns[j].name@ != name);
    }
}

/// When the compared tables' lines hold a line that ends a line of text,
/// the report is the whole comparison text and holds that line.
proof fn lemma_report_shows(
    source_conn: Seq<char>,
    target_conn: Seq<char>,
    source_tables: Seq<Seq<char>>,
    target_tables: Seq<Seq<char>>,
    comparisons: Seq<TableComparison>,
    a: Seq<char>,
    piece: Seq<char>,
    b: Seq<char>,
) -> (front: Seq<char>)
    requires
        comparison_lines(comparisons) == a + piece + b,
        newline_count(piece) >= 1,
    ensures
        schema_diff_report_text(source_conn, target_conn, source_tables, target_tables, comparisons)
            == front + piece + b,
{
    let h = diff_header(source_conn, target_conn);
    let lt = lone_table_lines(source_tables, target_tables, true) + lone_table_lines(
        target_tables,
        source_tables,
        false,
    );
    let d = diff_text(source_conn, target_conn, source_tables, target_tables, comparisons);
    assert(d =~= (h + lt + a) + piece + b);
    reveal_strlit("\n\n");
    let nn = "\n\n"@;
    assert(newline_count(nn) == 2) by {
        assert(nn.len() == 2 && nn[0] == '\n' && nn[1] == '\n');
        let t1 = nn.drop_last();
        assert(t1.len() == 1 && t1.last() == '\n');
        assert(t1.drop_last() =~= Seq::<char>::empty());
        assert(newline_count(t1.drop_last()) == 0);
        assert(newline_count(t1) == 1);
    }
    let y = "Schema Diff: "@ + source_conn + " vs "@ + target_conn;
    assert(h == y + nn);
    lemma_newline_count_concat(y, nn);
    lemma_newline_count_concat(h, lt + a);
    assert(h + lt + a =~= h + (lt + a));
    lemma_newline_count_monotone(h + lt + a, piece, b);
    assert(line_count(d) > 2);
    h + lt + a
}

proof fn lemma_ends_with_newline(s: Seq<char>)
    requires
        s.len() > 0,
        s.last() == '\n',
    ensures
        newline_count(s) >= 1,
{
}

/// A column whose type or nullability differs is reported: when a source
/// column of a compared table and the first target column of the same name
/// differ in type, in nullability or in both, the report is not the note
/// that nothing differs, and it holds the line
/// `- [DIFF COLUMN] Table `t`: Column `c` type/null mismatch (Source: type null, Target: type null)`.
pub proof fn lemma_differing_column_reported(
    source_conn: Seq<char>,
    target_conn: Seq<char>,
    source_tables: Seq<Seq<char>>,
    target_tables: Seq<Seq<char>>,
    comparisons: Seq<TableComparison>,
    i: int,
    k: int,
    j: int,
)
    requires
        0 <= i < comparisons.len(),
        0 <= k < comparisons[i].source_columns@.len(),
        0 <= j < comparisons[i].target_columns@.len(),
        comparisons[i].target_columns@[j].name@ == comparisons[i].source_columns@[k].name@,
        forall|m: int|
            0 <= m < j ==> (#[trigger] comparisons[i].target_columns@[m]).name@
                != comparisons[i].source_columns@[k].name@,
        comparisons[i].source_columns@[k].column_type@ != comparisons[i].target_columns@[j].column_type@
            || comparisons[i].source_columns@[k].is_nullable@ != comparisons[i].target_columns@[j].is_nullable@,
    ensures
        schema_diff_report_text(source_conn, target_conn, source_tables, target_tables, comparisons)
            != NO_DIFFERENCES@,
        exists|x: int, y: int|
            0 <= x <= y <= schema_diff_report_text(
                source_conn,
                target_conn,
                source_tables,
                target_tables,
                comparisons,
            ).len() && #[trigger] schema_diff_report_text(
                source_conn,
                target_conn,
                source_tables,
                target_tables,
                comparisons,
            ).subrange(x, y) == "- [DIFF COLUMN] Table `"@ + comparisons[i].table@ + "`: Column `"@
                + comparisons[i].source_columns@[k].name@ + "` type/null mismatch (Source: "@
                + comparisons[i].source_columns@[k].column_type@ + " "@
                + comparisons[i].source_columns@[k].is_nullable@ + ", Target: "@
                + comparisons[i].target_columns@[j].column_type@ + " "@
                + comparisons[i].target_columns@[j].is_nullable@ + ")\n"@,
{
    let c = comparisons[i];
    let sc = c.source_columns@;
    let tc = c.target_columns@;
    let s = sc[k];
    let t = tc[j];
    lemma_first_named_at(tc, s.name@, j);
    let line = differing_column_line(c.table@, s, t);
    assert(column_line(c.table@, s, tc) == line);
    let (a0, b0) = lemma_column_lines_hold(c.table@, sc, tc, k);
    let ex = extra_column_lines(c.table@, tc, sc);
    assert(table_comparison_lines(c.table@, sc, tc) =~= a0 + line + (b0 + ex));
    let (a, b) = lemma_comparison_piece(comparisons, i, a0, line, b0 + ex);
    assert(line.len() > 0 && line.last() == '\n') by {
        reveal_strlit(")\n");
    }
    lemma_ends_with_newline(line);
    let front = lemma_report_shows(source_conn, target_conn, source_tables, target_tables, comparisons, a, line, b);
    let r = schema_diff_report_text(source_conn, target_conn, source_tables, target_tables, comparisons);
    assert(r.subrange(front.len() as int, (front.len() + line.len()) as int) =~= line);
    assert(line.len() > NO_DIFFERENCES@.len()) by {
        reveal_strlit("- [DIFF COLUMN] Table `");
        reveal_strlit("`: Column `");
        reveal_strlit("` type/null mismatch (Source: ");
        reveal_strlit(", Target: ");
        reveal_strlit("No major structural differences found between schemas.");
    }
}

} // verus!
