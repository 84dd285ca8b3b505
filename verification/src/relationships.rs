//! Guessing joins that no foreign key declares, from column names such as
//! `customer_id`.

use vstd::prelude::*;
use crate::text::{chars_of, push_text, texts_of};
use crate::schema_diff::holds_text;

verus! {

/// A declared foreign key of a schema.
#[derive(Debug)]
pub struct ForeignKeyLink {
    pub table: String,
    pub column: String,
    pub referenced_table: String,
    pub referenced_column: String,
}

/// A column of a table.
#[derive(Debug)]
pub struct ColumnRef {
    pub table: String,
    pub column: String,
}

/// Whether a declared foreign key starts at this column.
pub open spec fn is_declared(links: Seq<ForeignKeyLink>, table: Seq<char>, column: Seq<char>) -> bool {
    exists|i: int| 0 <= i < links.len() && #[trigger] links[i].table@ == table && links[i].column@ == column
}

/// `i` in either case.
pub open spec fn is_letter_i(c: char) -> bool {
    c == 'i' || c == 'I'
}

/// `d` in either case.
pub open spec fn is_letter_d(c: char) -> bool {
    c == 'd' || c == 'D'
}

/// The name ends with `id`, in any letter case. (Only `I` and `D` have `i`
/// and `d` as their lower case, so this is the same as the lower-cased
/// name ending with `id`.)
pub open spec fn ends_with_id(name: Seq<char>) -> bool {
    name.len() >= 2 && is_letter_i(name[name.len() - 2]) && is_letter_d(name[name.len() - 1])
}

/// The name ends with `_id`, in any letter case.
pub open spec fn ends_with_underscore_id(name: Seq<char>) -> bool {
    name.len() >= 3 && name[name.len() - 3] == '_' && ends_with_id(name)
}

/// The table that a column's name points at: the name without its `_id`
/// ending, or else without its `id` ending; none for other names.
pub open spec fn guessed_target(name: Seq<char>) -> Option<Seq<char>> {
    if ends_with_underscore_id(name) {
        Some(name.take(name.len() - 3))
    } else if ends_with_id(name) {
        Some(name.take(name.len() - 2))
    } else {
        None
    }
}

/// The table of the schema that a guessed name points at: the table of
/// exactly that name, else the one named with an added plural `s`; the
/// guessed name itself when the schema has neither.
pub open spec fn matched_table(name: Seq<char>, tables: Seq<Seq<char>>) -> Seq<char> {
    if tables.contains(name) {
        name
    } else if tables.contains(name + "s"@) {
        name + "s"@
    } else {
        name
    }
}

/// One suggested join.
pub open spec fn suggestion_line(table: Seq<char>, column: Seq<char>, target: Seq<char>) -> Seq<char> {
    table + " | "@ + column + " | "@ + target + " (Guess) | Possible logical join\n"@
}

/// The suggested joins, in the order of the candidate columns: one for each
/// candidate that no declared foreign key starts at and whose name points
/// at a table, naming the schema's table that matches (see [`matched_table`]).
pub open spec fn suggestions(
    links: Seq<ForeignKeyLink>,
    tables: Seq<Seq<char>>,
    candidates: Seq<ColumnRef>,
) -> Seq<char>
    decreases candidates.len(),
{
    if candidates.len() == 0 {
        Seq::empty()
    } else {
        let c = candidates.last();
        let rest = suggestions(links, tables, candidates.drop_last());
        if is_declared(links, c.table@, c.column@) {
            rest
        } else {
            match guessed_target(c.column@) {
                Some(t) => rest + suggestion_line(c.table@, c.column@, matched_table(t, tables)),
                None => rest,
            }
        }
    }
}

/// The head of the report on suggested joins.
pub const RELATIONSHIP_HEADER: &'static str = "Suggested Logical Relationships (Heuristic):\n\nSource Table | Source Column | Target Table | Note\n--- | --- | --- | ---\n";

/// The report on suggested joins.
pub open spec fn relationship_report_text(
    links: Seq<ForeignKeyLink>,
    tables: Seq<Seq<char>>,
    candidates: Seq<ColumnRef>,
) -> Seq<char> {
    RELATIONSHIP_HEADER@ + suggestions(links, tables, candidates)
}

fn declared(links: &Vec<ForeignKeyLink>, c: &ColumnRef) -> (r: bool)
    ensures
        r == is_declared(links@, c.table@, c.column@),
{
    let n = links.len();
    for i in 0..n
        invariant
            n == links@.len(),
            forall|j: int| 0 <= j < i ==> !(#[trigger] links@[j].table@ == c.table@ && links@[j].column@ == c.column@),
    {
        if links[i].table == c.table && links[i].column == c.column {
            return true;
        }
    }
    false
}

/// The first `k` characters as a string.
pub fn prefix_string(chars: &Vec<char>, k: usize) -> (s: String)
    requires
        k <= chars@.len(),
    ensures
        s@ == chars@.take(k as int),
{
    let mut s = String::new();
    for i in 0..k
        invariant
            k <= chars@.len(),
            s@ == chars@.take(i as int),
    {
        s.push(chars[i]);
        proof {
            assert(chars@.take(i + 1) =~= chars@.take(i as int).push(chars@[i as int]));
        }
    }
    s
}

fn letter_i(c: char) -> (r: bool)
    ensures
        r == is_letter_i(c),
{
    c == 'i' || c == 'I'
}

fn letter_d(c: char) -> (r: bool)
    ensures
        r == is_letter_d(c),
{
    c == 'd' || c == 'D'
}

/// The table that a column's name points at, if any.
pub fn target_of(column: &str) -> (r: Option<String>)
    ensures
        match r {
            Some(t) => guessed_target(column@) == Some(t@),
            None => guessed_target(column@) is None,
        },
{
    let chars = chars_of(column);
    let n = chars.len();
    if n >= 2 && letter_i(chars[n - 2]) && letter_d(chars[n - 1]) {
        if n >= 3 && chars[n - 3] == '_' {
            Some(prefix_string(&chars, n - 3))
        } else {
            Some(prefix_string(&chars, n - 2))
        }
    } else {
        None
    }
}

/// The schema's table that a guessed name points at.
pub fn match_table(name: &String, tables: &Vec<String>) -> (r: String)
    ensures
        r@ == matched_table(name@, texts_of(tables@)),
{
    if holds_text(tables, name) {
        return name.clone();
    }
    let mut plural = name.clone();
    push_text(&mut plural, "s");
    if holds_text(tables, &plural) {
        plural
    } else {
        name.clone()
    }
}

/// The report on joins suggested by column names: each candidate column
/// that no declared foreign key starts at and whose name ends in `_id` or
/// `id` is proposed as a join to the schema's table that the rest of its
/// name points at (among `tables`, the tables of the schema).
pub fn relationship_report(
    links: &Vec<ForeignKeyLink>,
    tables: &Vec<String>,
    candidates: &Vec<ColumnRef>,
) -> (r: String)
    ensures
        r@ == relationship_report_text(links@, texts_of(tables@), candidates@),
{
    let mut out = String::new();
    push_text(&mut out, RELATIONSHIP_HEADER);
    let n = candidates.len();
    for i in 0..n
        invariant
            n == candidates@.len(),
            out@ == RELATIONSHIP_HEADER@ + suggestions(links@, texts_of(tables@), candidates@.take(i as int)),
    {
        let c = &candidates[i];
        proof {
            assert(candidates@.take(i + 1).drop_last() =~= candidates@.take(i as int));
            assert(candidates@.take(i + 1).last() == *c);
        }
        if !declared(links, c) {
            match target_of(c.column.as_str()) {
                Some(t) => {
                    let target = match_table(&t, tables);
                    push_text(&mut out, c.table.as_str());
                    push_text(&mut out, " | ");
                    push_text(&mut out, c.column.as_str());
                    push_text(&mut out, " | ");
                    push_text(&mut out, target.as_str());
                    push_text(&mut out, " (Guess) | Possible logical join\n");
                },
                None => {},
            }
        }
    }
    proof {
        assert(candidates@.take(n as int) =~= candidates@);
    }
    out
}

proof fn lemma_suggestions_hold(
    links: Seq<ForeignKeyLink>,
    tables: Seq<Seq<char>>,
    candidates: Seq<ColumnRef>,
    k: int,
    t: Seq<char>,
)
    requires
        0 <= k < candidates.len(),
        !is_declared(links, candidates[k].table@, candidates[k].column@),
        guessed_target(candidates[k].column@) == Some(t),
    ensures
        exists|a: Seq<char>, b: Seq<char>| suggestions(links, tables, candidates) == a + suggestion_line(
            candidates[k].table@,
            candidates[k].column@,
            matched_table(t, tables),
        ) + b,
    decreases candidates.len(),
{
    let c = candidates[k];
    let line = suggestion_line(c.table@, c.column@, matched_table(t, tables));
    let p = candidates.drop_last();
    let rest = suggestions(links, tables, p);
    if k == candidates.len() - 1 {
        assert(suggestions(links, tables, candidates) =~= rest + line + Seq::<char>::empty());
    } else {
        assert(p[k] == c);
        lemma_suggestions_hold(links, tables, p, k, t);
        let (a, b) = choose|a: Seq<char>, b: Seq<char>| rest == a + line + b;
        let whole = suggestions(links, tables, candidates);
        if whole == rest {
            assert(whole == a + line + b);
        } else {
            let e = whole.subrange(rest.len() as int, whole.len() as int);
            assert(whole =~= rest + e);
            assert(whole =~= a + line + (b + e));
        }
    }
}

/// A column is passed over only for a foreign key declared on that very
/// column of that very table. A candidate column named a prefix followed by
/// `_id`, on which no declared key starts, is suggested as a join to the
/// schema's table named by the prefix (or by the prefix and an `s`, or the
/// bare prefix when the schema has neither), whatever keys other tables
/// declare on columns of the same name.
pub proof fn lemma_undeclared_column_suggested(
    links: Seq<ForeignKeyLink>,
    tables: Seq<Seq<char>>,
    candidates: Seq<ColumnRef>,
    k: int,
    prefix: Seq<char>,
)
    requires
        0 <= k < candidates.len(),
        candidates[k].column@ == prefix + "_id"@,
        forall|l: int|
            0 <= l < links.len() ==> !(#[trigger] links[l].table@ == candidates[k].table@
                && links[l].column@ == candidates[k].column@),
    ensures
        exists|i: int, j: int|
            0 <= i <= j <= relationship_report_text(links, tables, candidates).len() && #[trigger] relationship_report_text(
                links,
                tables,
                candidates,
            ).subrange(i, j) == candidates[k].table@ + " | "@ + candidates[k].column@ + " | "@ + (if tables.contains(prefix) {
                prefix
            } else if tables.contains(prefix + "s"@) {
                prefix + "s"@
            } else {
                prefix
            }) + " (Guess) | Possible logical join\n"@,
{
    let c = candidates[k];
    let name = c.column@;
    reveal_strlit("_id");
    assert(name.len() == prefix.len() + 3);
    assert(name[name.len() - 3] == '_' && name[name.len() - 2] == 'i' && name[name.len() - 1] == 'd');
    assert(ends_with_underscore_id(name));
    assert(name.take(name.len() - 3) =~= prefix);
    assert(guessed_target(name) == Some(prefix));
    if is_declared(links, c.table@, name) {
        let l = choose|l: int| 0 <= l < links.len() && #[trigger] links[l].table@ == c.table@ && links[l].column@ == name;
        assert(!(links[l].table@ == c.table@ && links[l].column@ == name));
    }
    lemma_suggestions_hold(links, tables, candidates, k, prefix);
    let line = suggestion_line(c.table@, name, matched_table(prefix, tables));
    let (a, b) = choose|a: Seq<char>, b: Seq<char>| suggestions(links, tables, candidates) == a + line + b;
    let r = relationship_report_text(links, tables, candidates);
    let front = RELATIONSHIP_HEADER@ + a;
    assert(r =~= front + line + b);
    assert(r.subrange(front.len() as int, (front.len() + line.len()) as int) =~= line);
}

} // verus!
