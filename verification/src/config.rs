//! Connection settings, the set of named connections, the choice between
//! JSON and TOML for a configuration text, and the URL a pool connects to.

use vstd::prelude::*;
use crate::text::{decimal, push_decimal, push_text};

verus! {

/// Settings of one MySQL data source.
#[derive(Debug, Clone)]
pub struct ConnectionConfig {
    pub host: String,
    pub port: u16,
    pub username: String,
    pub password: Option<String>,
    pub database: Option<String>,
}

/// The mathematical value of a [`ConnectionConfig`].
pub struct ConnectionConfigView {
    pub host: Seq<char>,
    pub port: u16,
    pub username: Seq<char>,
    pub password: Option<Seq<char>>,
    pub database: Option<Seq<char>>,
}

/// The text of an optional string.
pub open spec fn optional_text(o: Option<String>) -> Option<Seq<char>> {
    match o {
        Some(s) => Some(s@),
        None => None,
    }
}

impl View for ConnectionConfig {
    type V = ConnectionConfigView;

    open spec fn view(&self) -> ConnectionConfigView {
        ConnectionConfigView {
            host: self.host@,
            port: self.port,
            username: self.username@,
            password: optional_text(self.password),
            database: optional_text(self.database),
        }
    }
}

/// Copies an optional string.
pub fn copy_optional(o: &Option<String>) -> (r: Option<String>)
    ensures
        optional_text(r) === optional_text(*o),
{
    match o {
        Some(s) => Some(s.clone()),
        None => None,
    }
}

/// Whether two optional strings hold the same text.
pub fn same_optional(a: &Option<String>, b: &Option<String>) -> (r: bool)
    ensures
        r == (optional_text(*a) === optional_text(*b)),
{
    match (a, b) {
        (Some(x), Some(y)) => *x == *y,
        (None, None) => true,
        _ => false,
    }
}

/// The text of an optional string, or the empty text when it is absent.
pub open spec fn text_or_empty(o: Option<Seq<char>>) -> Seq<char> {
    match o {
        Some(s) => s,
        None => Seq::empty(),
    }
}

/// The URL that a pool for `c` connects with:
/// `mysql://{username}:{password}@{host}:{port}/{database}`, where an absent
/// password or database gives empty text.
pub open spec fn connection_url_text(c: ConnectionConfigView) -> Seq<char> {
    "mysql://"@ + c.username + ":"@ + text_or_empty(c.password) + "@"@ + c.host + ":"@
        + decimal(c.port as nat) + "/"@ + text_or_empty(c.database)
}

/// A text starts the texts it is put in front of, and ends those it is put
/// behind.
proof fn lemma_joined_ends(a: Seq<char>, b: Seq<char>)
    ensures
        a.is_prefix_of(a + b),
        b.is_suffix_of(a + b),
{
    assert(a =~= (a + b).subrange(0, a.len() as int));
    assert(b =~= (a + b).subrange(a.len() as int, (a + b).len() as int));
}

/// Each setting has its own place in the URL, whatever the others are: it
/// starts with `mysql://`, the user name, `:` and the password (nothing when
/// there is none) followed by `@`; it ends with `@`, the host, `:`, the port
/// in decimal, `/` and the database (nothing when there is none).
pub proof fn lemma_connection_url_fields(c: ConnectionConfigView)
    ensures
        c.password matches Some(p) ==> ("mysql://"@ + c.username + ":"@ + p + "@"@).is_prefix_of(
            connection_url_text(c),
        ),
        c.password is None ==> ("mysql://"@ + c.username + ":"@ + "@"@).is_prefix_of(connection_url_text(c)),
        c.database matches Some(d) ==> ("@"@ + c.host + ":"@ + decimal(c.port as nat) + "/"@ + d).is_suffix_of(
            connection_url_text(c),
        ),
        c.database is None ==> ("@"@ + c.host + ":"@ + decimal(c.port as nat) + "/"@).is_suffix_of(
            connection_url_text(c),
        ),
{
    let url = connection_url_text(c);
    let head = "mysql://"@ + c.username + ":"@ + text_or_empty(c.password) + "@"@;
    let tail = c.host + ":"@ + decimal(c.port as nat) + "/"@ + text_or_empty(c.database);
    assert(url =~= head + tail);
    lemma_joined_ends(head, tail);
    let front = "mysql://"@ + c.username + ":"@ + text_or_empty(c.password);
    let back = "@"@ + tail;
    assert(url =~= front + back);
    lemma_joined_ends(front, back);
    assert(head =~= "mysql://"@ + c.username + ":"@ + text_or_empty(c.password) + "@"@);
    assert(back =~= "@"@ + c.host + ":"@ + decimal(c.port as nat) + "/"@ + text_or_empty(c.database));
    if c.password is None {
        assert(text_or_empty(c.password) =~= Seq::<char>::empty());
        assert(head =~= "mysql://"@ + c.username + ":"@ + "@"@);
    }
    if c.database is None {
        assert(text_or_empty(c.database) =~= Seq::<char>::empty());
        assert(back =~= "@"@ + c.host + ":"@ + decimal(c.port as nat) + "/"@);
    }
}

impl ConnectionConfig {
    /// A copy with the same settings.
    pub fn duplicate(&self) -> (r: ConnectionConfig)
        ensures
            r@ === self@,
    {
        ConnectionConfig {
            host: self.host.clone(),
            port: self.port,
            username: self.username.clone(),
            password: copy_optional(&self.password),
            database: copy_optional(&self.database),
        }
    }

    /// Whether two configurations hold the same settings.
    pub fn same_settings(&self, other: &ConnectionConfig) -> (r: bool)
        ensures
            r == (self@ === other@),
    {
        self.host == other.host && self.port == other.port && self.username == other.username
            && same_optional(&self.password, &other.password) && same_optional(
            &self.database,
            &other.database,
        )
    }

    /// The URL that a pool for this data source connects with.
    pub fn connection_url(&self) -> (url: String)
        ensures
            url@ == connection_url_text(self@),
    {
        let mut url = String::new();
        push_text(&mut url, "mysql://");
        push_text(&mut url, self.username.as_str());
        push_text(&mut url, ":");
        match &self.password {
            Some(p) => push_text(&mut url, p.as_str()),
            None => {},
        }
        push_text(&mut url, "@");
        push_text(&mut url, self.host.as_str());
        push_text(&mut url, ":");
        push_decimal(&mut url, self.port as u64);
        push_text(&mut url, "/");
        match &self.database {
            Some(d) => push_text(&mut url, d.as_str()),
            None => {},
        }
        url
    }
}

/// A data source together with the name it is known by.
#[derive(Debug)]
pub struct NamedConnection {
    pub name: String,
    pub config: ConnectionConfig,
}

/// No two entries carry the same name.
pub open spec fn names_distinct(s: Seq<NamedConnection>) -> bool {
    forall|i: int, j: int|
        0 <= i < s.len() && 0 <= j < s.len() && i != j ==> #[trigger] s[i].name@ != #[trigger] s[j].name@
}

/// The map from name to settings that a list of entries describes.
pub open spec fn entries_map(s: Seq<NamedConnection>) -> Map<Seq<char>, ConnectionConfigView>
    decreases s.len(),
{
    if s.len() == 0 {
        Map::empty()
    } else {
        entries_map(s.drop_last()).insert(s.last().name@, s.last().config@)
    }
}

/// With distinct names, the map holds exactly the entries' names, each with
/// the settings of its entry.
pub proof fn lemma_entries_map(s: Seq<NamedConnection>)
    requires
        names_distinct(s),
    ensures
        forall|i: int| 0 <= i < s.len() ==> entries_map(s).contains_key(#[trigger] s[i].name@)
            && entries_map(s)[s[i].name@] === s[i].config@,
        forall|n: Seq<char>| #[trigger] entries_map(s).contains_key(n) ==> exists|i: int|
            0 <= i < s.len() && s[i].name@ == n,
    decreases s.len(),
{
    if s.len() > 0 {
        let p = s.drop_last();
        assert(names_distinct(p)) by {
            assert forall|i: int, j: int|
                0 <= i < p.len() && 0 <= j < p.len() && i != j implies #[trigger] p[i].name@
                != #[trigger] p[j].name@ by {
                assert(p[i] == s[i] && p[j] == s[j]);
            }
        }
        lemma_entries_map(p);
        assert(entries_map(s) == entries_map(p).insert(s.last().name@, s.last().config@));
        assert forall|i: int| 0 <= i < s.len() implies entries_map(s).contains_key(
            #[trigger] s[i].name@,
        ) && entries_map(s)[s[i].name@] === s[i].config@ by {
            if i < s.len() - 1 {
                assert(p[i] == s[i]);
                assert(s[i].name@ != s[s.len() - 1].name@);
            } else {
                assert(s[i] == s.last());
            }
        }
        assert forall|n: Seq<char>| #[trigger] entries_map(s).contains_key(n) implies exists|i: int|
            0 <= i < s.len() && s[i].name@ == n by {
            if n != s.last().name@ {
                assert(entries_map(p).contains_key(n));
                let i = choose|i: int| 0 <= i < p.len() && p[i].name@ == n;
                assert(s[i] == p[i]);
            } else {
                assert(s[s.len() - 1].name@ == n);
            }
        }
    }
}

/// The map of a list of entries has exactly the entries' names as keys,
/// whether or not the names repeat.
pub proof fn lemma_entries_map_keys(s: Seq<NamedConnection>)
    ensures
        forall|n: Seq<char>| #[trigger] entries_map(s).contains_key(n) <==> exists|i: int|
            0 <= i < s.len() && s[i].name@ == n,
    decreases s.len(),
{
    if s.len() > 0 {
        let p = s.drop_last();
        lemma_entries_map_keys(p);
        assert(entries_map(s) == entries_map(p).insert(s.last().name@, s.last().config@));
        assert forall|n: Seq<char>| #[trigger] entries_map(s).contains_key(n) <==> exists|i: int|
            0 <= i < s.len() && s[i].name@ == n by {
            if entries_map(s).contains_key(n) && n != s.last().name@ {
                let i = choose|i: int| 0 <= i < p.len() && p[i].name@ == n;
                assert(s[i] == p[i]);
            }
            if n == s.last().name@ {
                assert(s[s.len() - 1].name@ == n);
            }
            if exists|i: int| 0 <= i < s.len() && s[i].name@ == n {
                let i = choose|i: int| 0 <= i < s.len() && s[i].name@ == n;
                if i < s.len() - 1 {
                    assert(p[i] == s[i]);
                }
            }
        }
    }
}

/// The configuration of every data source, by name.
pub struct AppConfig {
    connections: Vec<NamedConnection>,
}

impl AppConfig {
    #[verifier::type_invariant]
    spec fn wf(self) -> bool {
        names_distinct(self.connections@)
    }

    /// The entries, in the order in which they were first inserted.
    pub closed spec fn entries(self) -> Seq<NamedConnection> {
        self.connections@
    }

    /// An empty configuration.
    pub fn new() -> (c: AppConfig)
        ensures
            c@ == Map::<Seq<char>, ConnectionConfigView>::empty(),
            c.entries().len() == 0,
    {
        AppConfig { connections: Vec::new() }
    }

    /// The entries, in the order in which they were first inserted; their
    /// names are distinct and they describe exactly this configuration.
    pub fn connections(&self) -> (r: &Vec<NamedConnection>)
        ensures
            r@ == self.entries(),
            names_distinct(r@),
            entries_map(r@) == self@,
    {
        proof {
            use_type_invariant(self);
        }
        &self.connections
    }

    /// The number of data sources.
    pub fn len(&self) -> (n: usize)
        ensures
            n == self@.len(),
    {
        proof {
            use_type_invariant(self);
            lemma_entries_map(self.connections@);
            lemma_map_len(self.connections@);
        }
        self.connections.len()
    }

    /// Adds a data source, or replaces the settings of the one of that name.
    pub fn insert(&mut self, name: String, config: ConnectionConfig)
        ensures
            final(self)@ == old(self)@.insert(name@, config@),
    {
        proof {
            use_type_invariant(&*self);
            lemma_entries_map(self.connections@);
        }
        let ghost old_entries = self.connections@;
        let mut found: Option<usize> = None;
        let n = self.connections.len();
        for i in 0..n
            invariant
                n == self.connections@.len(),
                self.connections@ == old_entries,
                match found {
                    Some(k) => k < n && old_entries[k as int].name@ == name@,
                    None => forall|j: int| 0 <= j < i ==> old_entries[j].name@ != name@,
                },
        {
            if found.is_none() && self.connections[i].name == name {
                found = Some(i);
            }
        }
        let mut next: Vec<NamedConnection> = Vec::new();
        let ghost mut expected: Seq<NamedConnection> = Seq::empty();
        let mut i: usize = 0;
        while i < n
            invariant
                n == old_entries.len(),
                self.connections@ == old_entries,
                i <= n,
                next@.len() == i,
                forall|j: int| 0 <= j < i ==> #[trigger] next@[j].name@ == old_entries[j].name@,
                forall|j: int|
                    0 <= j < i ==> (if found == Some(j as usize) {
                        #[trigger] next@[j].config@ === config@
                    } else {
                        next@[j].config@ === old_entries[j].config@
                    }),
            decreases n - i,
        {
            let entry = &self.connections[i];
            let replaced = match found {
                Some(k) => k == i,
                None => false,
            };
            let c = if replaced { config.duplicate() } else { entry.config.duplicate() };
            next.push(NamedConnection { name: entry.name.clone(), config: c });
            i = i + 1;
        }
        if found.is_none() {
            next.push(NamedConnection { name, config });
        }
        proof {
            assert(names_distinct(next@)) by {
                assert forall|a: int, b: int|
                    0 <= a < next@.len() && 0 <= b < next@.len() && a != b implies #[trigger] next@[a].name@
                    != #[trigger] next@[b].name@ by {
                    if a < n && b < n {
                    } else if a < n {
                        assert(old_entries[a].name@ != name@);
                    } else {
                        assert(old_entries[b].name@ != name@);
                    }
                }
            }
            lemma_entries_map(next@);
            assert(entries_map(next@) =~= entries_map(old_entries).insert(name@, config@)) by {
                let m = entries_map(next@);
                let o = entries_map(old_entries);
                assert forall|k: Seq<char>| #[trigger] m.contains_key(k) <==> o.insert(name@, config@).contains_key(k) by {
                    if m.contains_key(k) {
                        let j = choose|j: int| 0 <= j < next@.len() && next@[j].name@ == k;
                        if j < n {
                            assert(o.contains_key(old_entries[j].name@));
                        }
                    }
                    if o.contains_key(k) && k != name@ {
                        let j = choose|j: int| 0 <= j < old_entries.len() && old_entries[j].name@ == k;
                        assert(m.contains_key(next@[j].name@));
                    }
                    if k == name@ {
                        match found {
                            Some(f) => { assert(m.contains_key(next@[f as int].name@)); },
                            None => { assert(m.contains_key(next@[n as int].name@)); },
                        }
                    }
                }
                assert forall|k: Seq<char>| #[trigger] m.contains_key(k) implies m[k] === o.insert(name@, config@)[k] by {
                    let j = choose|j: int| 0 <= j < next@.len() && next@[j].name@ == k;
                    if j < n {
                        assert(o.contains_key(old_entries[j].name@));
                    }
                }
            }
        }
        self.connections = next;
    }
}

/// With distinct names, the map has as many keys as there are entries.
pub proof fn lemma_map_len(s: Seq<NamedConnection>)
    requires
        names_distinct(s),
    ensures
        entries_map(s).len() == s.len(),
        entries_map(s).dom().finite(),
    decreases s.len(),
{
    if s.len() > 0 {
        let p = s.drop_last();
        assert(names_distinct(p)) by {
            assert forall|i: int, j: int|
                0 <= i < p.len() && 0 <= j < p.len() && i != j implies #[trigger] p[i].name@
                != #[trigger] p[j].name@ by {
                assert(p[i] == s[i] && p[j] == s[j]);
            }
        }
        lemma_map_len(p);
        lemma_entries_map(p);
        if entries_map(p).contains_key(s.last().name@) {
            let i = choose|i: int| 0 <= i < p.len() && p[i].name@ == s.last().name@;
            assert(s[i] == p[i]);
            assert(false);
        }
    } else {
        assert(entries_map(s).dom() =~= Set::empty());
    }
}

impl View for AppConfig {
    type V = Map<Seq<char>, ConnectionConfigView>;

    closed spec fn view(&self) -> Map<Seq<char>, ConnectionConfigView> {
        entries_map(self.connections@)
    }
}

/// The two text formats a configuration may be written in.
#[derive(Debug, Clone, Copy, PartialEq, Eq, Structural)]
pub enum ConfigFormat {
    Json,
    Toml,
}

/// Unicode's White_Space property, which `str::trim_start` strips.
pub open spec fn is_white_space(c: char) -> bool {
    ||| ('\u{9}' <= c && c <= '\u{d}')
    ||| c == ' '
    ||| c == '\u{85}'
    ||| c == '\u{a0}'
    ||| c == '\u{1680}'
    ||| ('\u{2000}' <= c && c <= '\u{200a}')
    ||| c == '\u{2028}'
    ||| c == '\u{2029}'
    ||| c == '\u{202f}'
    ||| c == '\u{205f}'
    ||| c == '\u{3000}'
}

/// A configuration text is JSON when its first character that is not white
/// space is `{`, and TOML otherwise (an empty or blank text included).
pub open spec fn config_format_of(content: Seq<char>) -> ConfigFormat {
    if exists|i: int| 0 <= i < content.len() && !is_white_space(content[i]) && (forall|j: int|
        0 <= j < i ==> is_white_space(#[trigger] content[j])) && content[i] == '{' {
        ConfigFormat::Json
    } else {
        ConfigFormat::Toml
    }
}

fn white_space(c: char) -> (r: bool)
    ensures
        r == is_white_space(c),
{
    ('\u{9}' <= c && c <= '\u{d}') || c == ' ' || c == '\u{85}' || c == '\u{a0}' || c == '\u{1680}'
        || ('\u{2000}' <= c && c <= '\u{200a}') || c == '\u{2028}' || c == '\u{2029}' || c
        == '\u{202f}' || c == '\u{205f}' || c == '\u{3000}'
}

/// Decides the format in which a configuration text is to be parsed.
pub fn detect_config_format(content: &str) -> (f: ConfigFormat)
    ensures
        f == config_format_of(content@),
{
    let chars = crate::text::chars_of(content);
    let n = chars.len();
    let mut i: usize = 0;
    while i < n
        invariant
            n == chars@.len(),
            chars@ == content@,
            i <= n,
            forall|j: int| 0 <= j < i ==> is_white_space(#[trigger] chars@[j]),
        decreases n - i,
    {
        if !white_space(chars[i]) {
            if chars[i] == '{' {
                return ConfigFormat::Json;
            } else {
                proof {
                    assert forall|k: int|
                        0 <= k < content@.len() && !is_white_space(content@[k]) && (forall|j: int|
                            0 <= j < k ==> is_white_space(#[trigger] content@[j])) implies content@[k]
                        != '{' by {
                        if k < i {
                        } else if k > i {
                            assert(is_white_space(content@[i as int]));
                        }
                    }
                }
                return ConfigFormat::Toml;
            }
        }
        i = i + 1;
    }
    ConfigFormat::Toml
}

} // verus!
