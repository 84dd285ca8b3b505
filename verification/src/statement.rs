//! Telling statements that only read from those that may change data, by
//! the words of the statement outside quotes and comments.

use vstd::prelude::*;
use crate::text::{chars_of, push_text};

verus! {

/// Whether a character is an ASCII letter.
pub open spec fn is_ascii_letter(c: char) -> bool {
    ('a' <= c && c <= 'z') || ('A' <= c && c <= 'Z')
}

/// Whether a character can be part of an unquoted word: a letter, a digit,
/// `_` or `$`.
pub open spec fn is_word_char(c: char) -> bool {
    is_ascii_letter(c) || ('0' <= c && c <= '9') || c == '_' || c == '$'
}

/// An ASCII letter in capitals; other characters unchanged.
pub open spec fn ascii_upper(c: char) -> char {
    if 'a' <= c && c <= 'z' {
        ((c as int) - 32) as char
    } else {
        c
    }
}

/// The end of the run of word characters that starts at `i`.
pub open spec fn word_end(s: Seq<char>, i: int) -> int
    decreases s.len() - i,
{
    if i < 0 || i >= s.len() || !is_word_char(s[i]) {
        i
    } else {
        word_end(s, i + 1)
    }
}

/// The word that starts at `i`, in capitals.
pub open spec fn word_at(s: Seq<char>, i: int) -> Seq<char> {
    s.subrange(i, word_end(s, i)).map_values(|c: char| ascii_upper(c))
}

/// Where a scan of SQL text stands.
#[derive(Debug, Clone, Copy)]
pub enum ScanMode {
    /// Between words, outside quotes and comments.
    Code,
    /// Inside an unquoted word.
    Word,
    /// Inside `'...'`.
    SingleQuoted,
    /// Inside `"..."`.
    DoubleQuoted,
    /// Inside `` `...` ``.
    BackQuoted,
    /// Inside `/* ... */`.
    BlockComment,
    /// Inside a comment that runs to the end of the line (`-- ` or `#`).
    LineComment,
}

/// A scan that stays at its position ranks the word it leaves above the
/// code it enters.
pub open spec fn mode_rank(mode: ScanMode) -> int {
    if mode is Word {
        1
    } else {
        0
    }
}

/// The words of `s` from position `i` on, in capitals, each with the
/// depth of round brackets it stands in; words in quotes or comments are
/// not counted, and a word starts with a letter.
pub open spec fn words(s: Seq<char>, i: int, depth: nat, mode: ScanMode) -> Seq<(Seq<char>, nat)>
    decreases s.len() - i, mode_rank(mode),
{
    if i < 0 || i >= s.len() {
        Seq::empty()
    } else {
        let c = s[i];
        let two = i + 1 < s.len();
        match mode {
            ScanMode::Word => if is_word_char(c) {
                words(s, i + 1, depth, ScanMode::Word)
            } else {
                words(s, i, depth, ScanMode::Code)
            },
            ScanMode::Code => if is_ascii_letter(c) {
                seq![(word_at(s, i), depth)] + words(s, i + 1, depth, ScanMode::Word)
            } else if is_word_char(c) {
                words(s, i + 1, depth, ScanMode::Word)
            } else if c == '(' {
                words(s, i + 1, depth + 1, ScanMode::Code)
            } else if c == ')' {
                words(s, i + 1, if depth > 0 { (depth - 1) as nat } else { 0 }, ScanMode::Code)
            } else if c == '\'' {
                words(s, i + 1, depth, ScanMode::SingleQuoted)
            } else if c == '"' {
                words(s, i + 1, depth, ScanMode::DoubleQuoted)
            } else if c == '`' {
                words(s, i + 1, depth, ScanMode::BackQuoted)
            } else if c == '#' {
                words(s, i + 1, depth, ScanMode::LineComment)
            } else if c == '-' && two && s[i + 1] == '-' {
                words(s, i + 2, depth, ScanMode::LineComment)
            } else if c == '/' && two && s[i + 1] == '*' {
                words(s, i + 2, depth, ScanMode::BlockComment)
            } else {
                words(s, i + 1, depth, ScanMode::Code)
            },
            ScanMode::SingleQuoted => if c == '\\' && two {
                words(s, i + 2, depth, ScanMode::SingleQuoted)
            } else if c == '\'' {
                words(s, i + 1, depth, ScanMode::Code)
            } else {
                words(s, i + 1, depth, ScanMode::SingleQuoted)
            },
            ScanMode::DoubleQuoted => if c == '\\' && two {
                words(s, i + 2, depth, ScanMode::DoubleQuoted)
            } else if c == '"' {
                words(s, i + 1, depth, ScanMode::Code)
            } else {
                words(s, i + 1, depth, ScanMode::DoubleQuoted)
            },
            ScanMode::BackQuoted => if c == '`' {
                words(s, i + 1, depth, ScanMode::Code)
            } else {
                words(s, i + 1, depth, ScanMode::BackQuoted)
            },
            ScanMode::BlockComment => if c == '*' && two && s[i + 1] == '/' {
                words(s, i + 2, depth, ScanMode::Code)
            } else {
                words(s, i + 1, depth, ScanMode::BlockComment)
            },
            ScanMode::LineComment => if c == '\n' {
                words(s, i + 1, depth, ScanMode::Code)
            } else {
                words(s, i + 1, depth, ScanMode::LineComment)
            },
        }
    }
}

/// The words that start a statement that only reads.
pub open spec fn reading_keywords() -> Seq<Seq<char>> {
    seq!["SELECT"@, "TABLE"@, "VALUES"@, "SHOW"@, "DESCRIBE"@, "DESC"@, "EXPLAIN"@]
}

/// The words that start the main statement that follows a `WITH` clause.
pub open spec fn statement_keywords() -> Seq<Seq<char>> {
    seq!["SELECT"@, "TABLE"@, "VALUES"@, "INSERT"@, "UPDATE"@, "DELETE"@, "REPLACE"@]
}

/// The main statements after a `WITH` clause that only read.
pub open spec fn query_keywords() -> Seq<Seq<char>> {
    seq!["SELECT"@, "TABLE"@, "VALUES"@]
}

/// The first word from position `k` on that stands at `depth` and starts a
/// statement (empty when there is none).
pub open spec fn main_statement(ws: Seq<(Seq<char>, nat)>, k: int, depth: nat) -> Seq<char>
    decreases ws.len() - k,
{
    if k < 0 || k >= ws.len() {
        Seq::empty()
    } else if ws[k].1 == depth && statement_keywords().contains(ws[k].0) {
        ws[k].0
    } else {
        main_statement(ws, k + 1, depth)
    }
}

/// Whether `INTO` is one of the words (a query that writes a file or sets
/// variables).
pub open spec fn mentions_into(ws: Seq<(Seq<char>, nat)>) -> bool {
    exists|k: int| 0 <= k < ws.len() && (#[trigger] ws[k]).0 == "INTO"@
}

/// Whether the words make a statement that only reads: the first word is
/// one of [`reading_keywords`], or it is `WITH` and the main statement at its
/// depth is one of [`query_keywords`]; and no word is `INTO`.
pub open spec fn is_read_only_words(ws: Seq<(Seq<char>, nat)>) -> bool {
    &&& ws.len() > 0
    &&& !mentions_into(ws)
    &&& (reading_keywords().contains(ws[0].0) || (ws[0].0 == "WITH"@ && query_keywords().contains(
        main_statement(ws, 1, ws[0].1),
    )))
}

/// Whether a statement only reads, judged by its words outside quotes and
/// comments (leading white space, comments and brackets are passed over).
pub open spec fn is_read_only_text(s: Seq<char>) -> bool {
    is_read_only_words(words(s, 0, 0, ScanMode::Code))
}

/// Words and depths, side by side.
pub open spec fn paired(ws: Seq<String>, ds: Seq<usize>) -> Seq<(Seq<char>, nat)> {
    Seq::new(ws.len(), |k: int| (ws[k]@, ds[k] as nat))
}

/// The answer to a query that is not read-only.
pub const READ_ONLY_REQUIRED: &'static str = "Only read-only statements (SELECT, TABLE, VALUES, WITH ... SELECT, SHOW, DESCRIBE, EXPLAIN, without INTO) can be run as a query";

/// Starts a transaction in which the server refuses every write; a query
/// runs inside it.
pub const READ_ONLY_TRANSACTION_SQL: &'static str = "START TRANSACTION READ ONLY";

/// Ends the query's transaction, keeping nothing.
pub const ROLLBACK_SQL: &'static str = "ROLLBACK";

fn is_letter_char(c: char) -> (r: bool)
    ensures
        r == is_ascii_letter(c),
{
    ('a' <= c && c <= 'z') || ('A' <= c && c <= 'Z')
}

fn is_word_character(c: char) -> (r: bool)
    ensures
        r == is_word_char(c),
{
    is_letter_char(c) || ('0' <= c && c <= '9') || c == '_' || c == '$'
}

fn upper_char(c: char) -> (r: char)
    ensures
        r == ascii_upper(c),
{
    if 'a' <= c && c <= 'z' {
        let code: u8 = c as u8;
        (code - 32) as char
    } else {
        c
    }
}

/// The word that starts at `i`, in capitals.
fn word_from(chars: &Vec<char>, i: usize) -> (w: String)
    requires
        i < chars@.len(),
    ensures
        w@ == word_at(chars@, i as int),
{
    let ghost s = chars@;
    let n = chars.len();
    let mut e: usize = i;
    while e < n && is_word_character(chars[e])
        invariant
            s == chars@,
            n == s.len(),
            i <= e <= n,
            word_end(s, i as int) == word_end(s, e as int),
        decreases n - e,
    {
        e = e + 1;
    }
    proof {
        assert(word_end(s, i as int) == e);
    }
    let mut w = String::new();
    for k in i..e
        invariant
            s == chars@,
            e <= n,
            n == s.len(),
            w@ == s.subrange(i as int, k as int).map_values(|c: char| ascii_upper(c)),
    {
        let u = upper_char(chars[k]);
        w.push(u);
        proof {
            assert(s.subrange(i as int, k + 1).map_values(|c: char| ascii_upper(c)) =~= s.subrange(
                i as int,
                k as int,
            ).map_values(|c: char| ascii_upper(c)).push(u));
        }
    }
    w
}

/// The words of a statement with their bracket depths, as [`words`] gives
/// them.
fn scan_words(chars: &Vec<char>) -> (r: (Vec<String>, Vec<usize>))
    ensures
        r.0@.len() == r.1@.len(),
        paired(r.0@, r.1@) == words(chars@, 0, 0, ScanMode::Code),
{
    let ghost s = chars@;
    let n = chars.len();
    let mut ws: Vec<String> = Vec::new();
    let mut ds: Vec<usize> = Vec::new();
    let mut i: usize = 0;
    let mut depth: usize = 0;
    let mut mode = ScanMode::Code;
    proof {
        assert(paired(ws@, ds@) + words(s, 0, 0, ScanMode::Code) =~= words(s, 0, 0, ScanMode::Code));
    }
    while i < n
        invariant
            s == chars@,
            n == s.len(),
            i <= n,
            depth <= i,
            ws@.len() == ds@.len(),
            words(s, 0, 0, ScanMode::Code) == paired(ws@, ds@) + words(s, i as int, depth as nat, mode),
        decreases n - i,
    {
        let c = chars[i];
        let two = i + 1 < n;
        let ghost before = paired(ws@, ds@);
        let ghost rest = words(s, i as int, depth as nat, mode);
        match mode {
            ScanMode::Word => {
                if !is_word_character(c) {
                    mode = ScanMode::Code;
                }
            },
            _ => {},
        }
        proof {
            assert(rest == words(s, i as int, depth as nat, mode));
        }
        match mode {
            ScanMode::Word => {
                i = i + 1;
            },
            ScanMode::Code => {
                if is_letter_char(c) {
                    let w = word_from(chars, i);
                    ws.push(w);
                    ds.push(depth);
                    proof {
                        assert(paired(ws@, ds@) =~= before + seq![(word_at(s, i as int), depth as nat)]);
                        assert(rest == seq![(word_at(s, i as int), depth as nat)] + words(
                            s,
                            i + 1,
                            depth as nat,
                            ScanMode::Word,
                        ));
                        assert(before + rest =~= paired(ws@, ds@) + words(
                            s,
                            i + 1,
                            depth as nat,
                            ScanMode::Word,
                        ));
                    }
                    mode = ScanMode::Word;
                    i = i + 1;
                } else if is_word_character(c) {
                    mode = ScanMode::Word;
                    i = i + 1;
                } else if c == '(' {
                    depth = depth + 1;
                    i = i + 1;
                } else if c == ')' {
                    if depth > 0 {
                        depth = depth - 1;
                    }
                    i = i + 1;
                } else if c == '\'' {
                    mode = ScanMode::SingleQuoted;
                    i = i + 1;
                } else if c == '"' {
                    mode = ScanMode::DoubleQuoted;
                    i = i + 1;
                } else if c == '`' {
                    mode = ScanMode::BackQuoted;
                    i = i + 1;
                } else if c == '#' {
                    mode = ScanMode::LineComment;
                    i = i + 1;
                } else if c == '-' && two && chars[i + 1] == '-' {
                    mode = ScanMode::LineComment;
                    i = i + 2;
                } else if c == '/' && two && chars[i + 1] == '*' {
                    mode = ScanMode::BlockComment;
                    i = i + 2;
                } else {
                    i = i + 1;
                }
            },
            ScanMode::SingleQuoted => {
                if c == '\\' && two {
                    i = i + 2;
                } else if c == '\'' {
                    mode = ScanMode::Code;
                    i = i + 1;
                } else {
                    i = i + 1;
                }
            },
            ScanMode::DoubleQuoted => {
                if c == '\\' && two {
                    i = i + 2;
                } else if c == '"' {
                    mode = ScanMode::Code;
                    i = i + 1;
                } else {
                    i = i + 1;
                }
            },
            ScanMode::BackQuoted => {
                if c == '`' {
                    mode = ScanMode::Code;
                }
                i = i + 1;
            },
            ScanMode::BlockComment => {
                if c == '*' && two && chars[i + 1] == '/' {
                    mode = ScanMode::Code;
                    i = i + 2;
                } else {
                    i = i + 1;
                }
            },
            ScanMode::LineComment => {
                if c == '\n' {
                    mode = ScanMode::Code;
                }
                i = i + 1;
            },
        }
    }
    proof {
        assert(words(s, i as int, depth as nat, mode) =~= Seq::<(Seq<char>, nat)>::empty());
        assert(paired(ws@, ds@) + Seq::<(Seq<char>, nat)>::empty() =~= paired(ws@, ds@));
    }
    (ws, ds)
}

/// Whether a word is one of `keys`.
fn among(w: &String, keys: &Vec<&str>) -> (r: bool)
    ensures
        r == keys@.map_values(|k: &str| k@).contains(w@),
{
    let ghost ks = keys@.map_values(|k: &str| k@);
    let n = keys.len();
    for k in 0..n
        invariant
            n == keys@.len(),
            ks == keys@.map_values(|k: &str| k@),
            forall|j: int| 0 <= j < k ==> ks[j] != w@,
    {
        if *w == String::from_str(keys[k]) {
            proof {
                assert(ks[k as int] == w@);
            }
            return true;
        }
    }
    proof {
        if ks.contains(w@) {
            let j = choose|j: int| 0 <= j < ks.len() && ks[j] == w@;
        }
    }
    false
}

fn reading_keyword_list() -> (r: Vec<&'static str>)
    ensures
        r@.map_values(|k: &str| k@) == reading_keywords(),
{
    let r = vec!["SELECT", "TABLE", "VALUES", "SHOW", "DESCRIBE", "DESC", "EXPLAIN"];
    assert(r@.map_values(|k: &str| k@) =~= reading_keywords());
    r
}

fn statement_keyword_list() -> (r: Vec<&'static str>)
    ensures
        r@.map_values(|k: &str| k@) == statement_keywords(),
{
    let r = vec!["SELECT", "TABLE", "VALUES", "INSERT", "UPDATE", "DELETE", "REPLACE"];
    assert(r@.map_values(|k: &str| k@) =~= statement_keywords());
    r
}

fn query_keyword_list() -> (r: Vec<&'static str>)
    ensures
        r@.map_values(|k: &str| k@) == query_keywords(),
{
    let r = vec!["SELECT", "TABLE", "VALUES"];
    assert(r@.map_values(|k: &str| k@) =~= query_keywords());
    r
}

/// Whether the scanned words make a statement that only reads.
fn decide(ws: &Vec<String>, ds: &Vec<usize>) -> (r: bool)
    requires
        ws@.len() == ds@.len(),
    ensures
        r == is_read_only_words(paired(ws@, ds@)),
{
    let ghost p = paired(ws@, ds@);
    let n = ws.len();
    if n == 0 {
        return false;
    }
    let into = String::from_str("INTO");
    for k in 0..n
        invariant
            n == ws@.len(),
            n == ds@.len(),
            p == paired(ws@, ds@),
            into@ == "INTO"@,
            forall|j: int| 0 <= j < k ==> (#[trigger] p[j]).0 != "INTO"@,
    {
        if ws[k] == into {
            proof {
                assert(p[k as int].0 == "INTO"@);
            }
            return false;
        }
    }
    proof {
        if mentions_into(p) {
            let j = choose|j: int| 0 <= j < p.len() && (#[trigger] p[j]).0 == "INTO"@;
        }
        assert(p[0].0 == ws@[0]@);
    }
    if among(&ws[0], &reading_keyword_list()) {
        return true;
    }
    if !(ws[0] == String::from_str("WITH")) {
        return false;
    }
    let depth = ds[0];
    proof {
        assert(p[0].1 == depth as nat);
    }
    let statements = statement_keyword_list();
    let mut k: usize = 1;
    while k < n
        invariant
            n == ws@.len(),
            n == ds@.len(),
            1 <= k <= n,
            p == paired(ws@, ds@),
            depth == ds@[0],
            p[0].1 == depth as nat,
            !mentions_into(p),
            p[0].0 == "WITH"@,
            !reading_keywords().contains(p[0].0),
            statements@.map_values(|x: &str| x@) == statement_keywords(),
            main_statement(p, 1, p[0].1) == main_statement(p, k as int, depth as nat),
        decreases n - k,
    {
        proof {
            assert(p[k as int] == (ws@[k as int]@, ds@[k as int] as nat));
        }
        if ds[k] == depth && among(&ws[k], &statements) {
            return among(&ws[k], &query_keyword_list());
        }
        k = k + 1;
    }
    proof {
        reveal_strlit("SELECT");
        reveal_strlit("TABLE");
        reveal_strlit("VALUES");
        assert(main_statement(p, n as int, depth as nat) == Seq::<char>::empty());
        let q = query_keywords();
        assert(q[0].len() > 0 && q[1].len() > 0 && q[2].len() > 0);
        assert(!q.contains(Seq::<char>::empty()));
    }
    false
}

/// Whether a statement only reads, judged by its words outside quotes and
/// comments.
pub fn is_read_only_statement(sql: &str) -> (r: bool)
    ensures
        r == is_read_only_text(sql@),
{
    let chars = chars_of(sql);
    let (ws, ds) = scan_words(&chars);
    decide(&ws, &ds)
}

/// Makes `schema` the current database of a connection.
pub fn use_schema_sql(schema: &str) -> (sql: String)
    ensures
        sql@ == "USE `"@ + schema@ + "`"@,
{
    let mut sql = String::new();
    push_text(&mut sql, "USE `");
    push_text(&mut sql, schema);
    push_text(&mut sql, "`");
    sql
}

} // verus!
