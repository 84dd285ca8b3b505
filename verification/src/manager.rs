//! The registry of named data sources and their pools, and how a new
//! configuration is taken over while the server runs.

use vstd::prelude::*;
use crate::config::{
    AppConfig, ConnectionConfig, ConnectionConfigView, NamedConnection, connection_url_text,
    entries_map, lemma_entries_map, names_distinct,
};
use crate::pool::{MySqlPool, connect_lazy_pool, mysql_url_accepted};
use crate::text::{push_text, texts_of};

verus! {

/// The most connections that one data source's pool opens at a time.
pub const MAX_POOL_CONNECTIONS: u32 = 5;

/// Whether a pool can be made for these settings: sqlx accepts their URL.
pub open spec fn pool_creatable(c: ConnectionConfigView) -> bool {
    mysql_url_accepted(connection_url_text(c))
}

/// Whether a data source of this name keeps its current pool when `new`
/// becomes the configuration: it is configured now with the same settings,
/// or it is configured now and no pool can be made for its new settings.
pub open spec fn keeps_pool(
    old: Map<Seq<char>, ConnectionConfigView>,
    new: Map<Seq<char>, ConnectionConfigView>,
    n: Seq<char>,
) -> bool {
    &&& new.contains_key(n)
    &&& old.contains_key(n)
    &&& (old[n] == new[n] || !pool_creatable(new[n]))
}

/// Whether a data source of this name is given a new pool when `new` becomes
/// the configuration: its settings are new or changed and a pool can be made.
pub open spec fn gets_new_pool(
    old: Map<Seq<char>, ConnectionConfigView>,
    new: Map<Seq<char>, ConnectionConfigView>,
    n: Seq<char>,
) -> bool {
    &&& new.contains_key(n)
    &&& !(old.contains_key(n) && old[n] == new[n])
    &&& pool_creatable(new[n])
}

/// Whether the new or changed settings of a data source could not be taken
/// over because no pool can be made for them.
pub open spec fn fails_over(
    old: Map<Seq<char>, ConnectionConfigView>,
    new: Map<Seq<char>, ConnectionConfigView>,
    n: Seq<char>,
) -> bool {
    &&& new.contains_key(n)
    &&& !(old.contains_key(n) && old[n] == new[n])
    &&& !pool_creatable(new[n])
}

/// The settings in force after `new` is taken over from `old`: a data source
/// stays exactly when `new` names it and it either keeps its pool or gets a
/// new one; it carries its new settings, except where the new settings
/// could not be taken over, in which case it carries its old ones.
pub open spec fn reloaded(
    old: Map<Seq<char>, ConnectionConfigView>,
    new: Map<Seq<char>, ConnectionConfigView>,
) -> Map<Seq<char>, ConnectionConfigView> {
    Map::new(
        |n: Seq<char>| keeps_pool(old, new, n) || gets_new_pool(old, new, n),
        |n: Seq<char>| if keeps_pool(old, new, n) { old[n] } else { new[n] },
    )
}

/// The names of `names` that `m` holds, in order.
pub open spec fn names_kept(names: Seq<Seq<char>>, m: Map<Seq<char>, ConnectionConfigView>) -> Seq<Seq<char>>
    decreases names.len(),
{
    if names.len() == 0 {
        Seq::empty()
    } else {
        let rest = names_kept(names.drop_last(), m);
        if m.contains_key(names.last()) {
            rest.push(names.last())
        } else {
            rest
        }
    }
}

/// What taking over a configuration did, name by name.
#[derive(Debug)]
pub struct ReloadReport {
    /// Data sources that were given a new pool.
    pub created: Vec<String>,
    /// Data sources whose new or changed settings could not be taken over.
    pub failed: Vec<String>,
    /// Data sources that the new configuration no longer names.
    pub removed: Vec<String>,
}

/// An error of the registry.
#[derive(Debug)]
pub enum DbError {
    /// No data source of this name is configured.
    ConnectionNotFound(String),
}

impl DbError {
    /// The text of the error.
    pub fn message(&self) -> (m: String)
        ensures
            match self {
                DbError::ConnectionNotFound(n) => m@ == "Connection '"@ + n@ + "' not found"@,
            },
    {
        match self {
            DbError::ConnectionNotFound(n) => {
                let mut m = String::new();
                push_text(&mut m, "Connection '");
                push_text(&mut m, n.as_str());
                push_text(&mut m, "' not found");
                m
            },
        }
    }
}


/// The names of a list of entries, in order.
pub open spec fn names_of(s: Seq<NamedConnection>) -> Seq<Seq<char>> {
    s.map_values(|e: NamedConnection| e.name@)
}

/// The pool that sits beside the entry of name `n`.
pub open spec fn pool_named(s: Seq<NamedConnection>, pools: Seq<MySqlPool>, n: Seq<char>) -> MySqlPool {
    pools[choose|i: int| 0 <= i < s.len() && s[i].name@ == n]
}

/// With distinct names, the pool of a name is the one at its entry.
pub proof fn lemma_pool_named(s: Seq<NamedConnection>, pools: Seq<MySqlPool>, i: int)
    requires
        names_distinct(s),
        0 <= i < s.len(),
    ensures
        pool_named(s, pools, s[i].name@) === pools[i],
{
    let k = choose|k: int| 0 <= k < s.len() && s[k].name@ == s[i].name@;
    assert(0 <= k < s.len() && s[k].name@ == s[i].name@);
    if k != i {
        assert(s[k].name@ != s[i].name@);
    }
}

/// Whether a pool is the one made for these settings: it connects with
/// their URL and opens at most [`MAX_POOL_CONNECTIONS`] connections.
pub open spec fn pool_serves(p: MySqlPool, c: ConnectionConfigView) -> bool {
    p.url() == connection_url_text(c) && p.max_connections() == MAX_POOL_CONNECTIONS
}

/// With distinct names, and each pool made for the settings of its entry,
/// the pool of a listed name is the one made for that name's settings.
proof fn lemma_pools_serve(s: Seq<NamedConnection>, pools: Seq<MySqlPool>, n: Seq<char>)
    requires
        names_distinct(s),
        s.len() == pools.len(),
        forall|i: int| 0 <= i < s.len() ==> pool_serves(#[trigger] pools[i], s[i].config@),
    ensures
        entries_map(s).contains_key(n) ==> pool_serves(pool_named(s, pools, n), entries_map(s)[n]),
{
    lemma_entries_map(s);
    if entries_map(s).contains_key(n) {
        let j = choose|j: int| 0 <= j < s.len() && s[j].name@ == n;
        lemma_pool_named(s, pools, j);
        assert(pool_serves(pools[j], s[j].config@));
    }
}

/// The data sources that the server can query, each with its settings and
/// its pool.
pub struct DbManager {
    connections: Vec<NamedConnection>,
    pools: Vec<MySqlPool>,
}

/// Looks up the position of the entry of a name.
fn position_of(entries: &Vec<NamedConnection>, name: &String) -> (r: Option<usize>)
    ensures
        match r {
            Some(i) => i < entries@.len() && entries@[i as int].name@ == name@,
            None => forall|i: int| 0 <= i < entries@.len() ==> entries@[i].name@ != name@,
        },
{
    let n = entries.len();
    for i in 0..n
        invariant
            n == entries@.len(),
            forall|j: int| 0 <= j < i ==> entries@[j].name@ != name@,
    {
        if entries[i].name == *name {
            return Some(i);
        }
    }
    None
}

/// How one configured data source is taken over.
enum Takeover {
    /// Its settings are unchanged: the entry at this position stays.
    Unchanged(usize),
    /// A new pool was made for its new or changed settings.
    Created(MySqlPool),
    /// No pool can be made for its changed settings: the entry at this
    /// position stays as it was.
    FailedKeepOld(usize),
    /// No pool can be made for the settings of this new data source.
    FailedNew,
}

impl DbManager {
    #[verifier::type_invariant]
    spec fn wf(self) -> bool {
        &&& names_distinct(self.connections@)
        &&& self.connections@.len() == self.pools@.len()
        &&& forall|i: int|
            0 <= i < self.pools@.len() ==> pool_serves(#[trigger] self.pools@[i], self.connections@[i].config@)
    }

    /// The names of the data sources, in the order in which they are listed.
    pub closed spec fn names(self) -> Seq<Seq<char>> {
        names_of(self.connections@)
    }

    /// The pool of the data source of a name.
    pub closed spec fn pool_of(self, n: Seq<char>) -> MySqlPool {
        pool_named(self.connections@, self.pools@, n)
    }

    /// A registry with no data source.
    pub fn empty() -> (m: DbManager)
        ensures
            m@ == Map::<Seq<char>, ConnectionConfigView>::empty(),
            m.names().len() == 0,
    {
        DbManager { connections: Vec::new(), pools: Vec::new() }
    }

    /// A registry of the data sources of `config`, each with a new pool made
    /// within the runtime `rt`; a data source for whose settings no pool can
    /// be made is left out.
    pub fn new(config: &AppConfig, rt: &tokio::runtime::Handle) -> (m: DbManager)
        ensures
            m@ == reloaded(Map::empty(), config@),
            m.names() == names_kept(names_of(config.entries()), m@),
            forall|n: Seq<char>| #[trigger] m@.contains_key(n) ==> pool_serves(m.pool_of(n), config@[n]),
    {
        let mut m = DbManager::empty();
        let _report = m.update(config, rt);
        m
    }

    /// Takes over `config`: data sources that it no longer names are
    /// removed; new or changed ones are given a new pool made within `rt`,
    /// and keep their old state if none can be made; unchanged ones keep
    /// their pool.
    pub fn update(&mut self, config: &AppConfig, rt: &tokio::runtime::Handle) -> (report:
        ReloadReport)
        ensures
            final(self)@ == reloaded(old(self)@, config@),
            final(self).names() == names_kept(names_of(config.entries()), final(self)@),
            forall|n: Seq<char>|
                #[trigger] keeps_pool(old(self)@, config@, n) ==> final(self).pool_of(n) === old(
                    self,
                ).pool_of(n),
            forall|n: Seq<char>|
                #[trigger] final(self)@.contains_key(n) ==> pool_serves(final(self).pool_of(n), final(self)@[n]),
            forall|n: Seq<char>|
                #[trigger] gets_new_pool(old(self)@, config@, n) ==> pool_serves(final(self).pool_of(n), config@[n]),
            texts_of(report.created@).no_duplicates(),
            texts_of(report.failed@).no_duplicates(),
            texts_of(report.removed@).no_duplicates(),
            forall|n: Seq<char>|
                #[trigger] texts_of(report.created@).contains(n) <==> gets_new_pool(
                    old(self)@,
                    config@,
                    n,
                ),
            forall|n: Seq<char>|
                #[trigger] texts_of(report.failed@).contains(n) <==> fails_over(
                    old(self)@,
                    config@,
                    n,
                ),
            forall|n: Seq<char>|
                #[trigger] texts_of(report.removed@).contains(n) <==> (old(
                    self,
                )@.contains_key(n) && !config@.contains_key(n)),
    {
        proof {
            use_type_invariant(&*self);
        }
        let cfg = config.connections();
        let ghost old_map = entries_map(self.connections@);
        let ghost new_map = config@;
        let ghost target = reloaded(old_map, new_map);
        proof {
            lemma_entries_map(self.connections@);
            lemma_entries_map(cfg@);
        }
        let mut next_connections: Vec<NamedConnection> = Vec::new();
        let mut next_pools: Vec<MySqlPool> = Vec::new();
        let mut created: Vec<String> = Vec::new();
        let mut failed: Vec<String> = Vec::new();
        let ghost mut src: Seq<int> = Seq::empty();
        let ghost mut created_src: Seq<int> = Seq::empty();
        let ghost mut failed_src: Seq<int> = Seq::empty();
        let count = cfg.len();
        for i in 0..count
            invariant
                count == cfg@.len(),
                names_distinct(cfg@),
                entries_map(cfg@) == new_map,
                names_distinct(self.connections@),
                self.connections@.len() == self.pools@.len(),
                old_map == entries_map(self.connections@),
                target == reloaded(old_map, new_map),
                forall|k: int| 0 <= k < cfg@.len() ==> new_map.contains_key(#[trigger] cfg@[k].name@)
                    && new_map[cfg@[k].name@] === cfg@[k].config@,
                forall|k: int| 0 <= k < self.connections@.len() ==> old_map.contains_key(
                    #[trigger] self.connections@[k].name@,
                ) && old_map[self.connections@[k].name@] === self.connections@[k].config@,
                forall|n: Seq<char>| #[trigger] old_map.contains_key(n) ==> exists|k: int|
                    0 <= k < self.connections@.len() && self.connections@[k].name@ == n,
                forall|k: int|
                    0 <= k < self.pools@.len() ==> pool_serves(#[trigger] self.pools@[k], self.connections@[k].config@),
                names_of(next_connections@) == names_kept(names_of(cfg@.take(i as int)), target),
                next_connections@.len() == src.len(),
                next_pools@.len() == src.len(),
                forall|j: int|
                    0 <= j < src.len() ==> pool_serves(#[trigger] next_pools@[j], next_connections@[j].config@),
                forall|j: int| 0 <= j < src.len() ==> 0 <= #[trigger] src[j] < i,
                forall|a: int, b: int| 0 <= a < b < src.len() ==> #[trigger] src[a] < #[trigger] src[b],
                forall|j: int| 0 <= j < src.len() ==> #[trigger] next_connections@[j].name@ == cfg@[src[j]].name@,
                forall|j: int|
                    0 <= j < src.len() ==> #[trigger] target.contains_key(next_connections@[j].name@)
                        && target[next_connections@[j].name@] === next_connections@[j].config@,
                forall|j: int|
                    0 <= j < src.len() && keeps_pool(old_map, new_map, next_connections@[j].name@)
                        ==> #[trigger] next_pools@[j] === pool_named(
                        self.connections@,
                        self.pools@,
                        next_connections@[j].name@,
                    ),
                forall|k: int|
                    0 <= k < i && #[trigger] target.contains_key(cfg@[k].name@) ==> exists|j: int|
                        0 <= j < src.len() && src[j] == k,
                created@.len() == created_src.len(),
                forall|j: int| 0 <= j < created_src.len() ==> 0 <= #[trigger] created_src[j] < i,
                forall|a: int, b: int| 0 <= a < b < created_src.len() ==> #[trigger] created_src[a] < #[trigger] created_src[b],
                forall|j: int| 0 <= j < created_src.len() ==> #[trigger] created@[j]@ == cfg@[created_src[j]].name@,
                forall|j: int| 0 <= j < created_src.len() ==> gets_new_pool(old_map, new_map, #[trigger] created@[j]@),
                forall|k: int|
                    0 <= k < i && #[trigger] gets_new_pool(old_map, new_map, cfg@[k].name@) ==> exists|j: int|
                        0 <= j < created_src.len() && created_src[j] == k,
                failed@.len() == failed_src.len(),
                forall|j: int| 0 <= j < failed_src.len() ==> 0 <= #[trigger] failed_src[j] < i,
                forall|a: int, b: int| 0 <= a < b < failed_src.len() ==> #[trigger] failed_src[a] < #[trigger] failed_src[b],
                forall|j: int| 0 <= j < failed_src.len() ==> #[trigger] failed@[j]@ == cfg@[failed_src[j]].name@,
                forall|j: int| 0 <= j < failed_src.len() ==> fails_over(old_map, new_map, #[trigger] failed@[j]@),
                forall|k: int|
                    0 <= k < i && #[trigger] fails_over(old_map, new_map, cfg@[k].name@) ==> exists|j: int|
                        0 <= j < failed_src.len() && failed_src[j] == k,
        {
            let entry = &cfg[i];
            let ghost name = entry.name@;
            let t = self.take_over(entry, rt);
            let ghost tg = t;
            let ghost src0 = src;
            let ghost created0 = created_src;
            let ghost failed0 = failed_src;
            let ghost nc0 = next_connections@;
            proof {
                assert(new_map.contains_key(name) && new_map[name] === entry.config@);
                match t {
                    Takeover::Unchanged(j) => {
                        lemma_pool_named(self.connections@, self.pools@, j as int);
                        assert(old_map.contains_key(name) && old_map[name] === entry.config@);
                    },
                    Takeover::FailedKeepOld(j) => {
                        lemma_pool_named(self.connections@, self.pools@, j as int);
                        assert(old_map.contains_key(name) && !(old_map[name] === entry.config@));
                    },
                    _ => {
                        if old_map.contains_key(name) {
                            let k = choose|k: int|
                                0 <= k < self.connections@.len() && self.connections@[k].name@ == name;
                            assert(old_map[name] === self.connections@[k].config@);
                        }
                    },
                }
            }
            match t {
                Takeover::Unchanged(j) => {
                    next_connections.push(
                        NamedConnection {
                            name: entry.name.clone(),
                            config: self.connections[j].config.duplicate(),
                        },
                    );
                    next_pools.push(self.pools[j].share());
                    proof {
                        src = src.push(i as int);
                    }
                },
                Takeover::Created(pool) => {
                    next_connections.push(
                        NamedConnection { name: entry.name.clone(), config: entry.config.duplicate() },
                    );
                    next_pools.push(pool);
                    created.push(entry.name.clone());
                    proof {
                        src = src.push(i as int);
                        created_src = created_src.push(i as int);
                    }
                },
                Takeover::FailedKeepOld(j) => {
                    failed.push(entry.name.clone());
                    next_connections.push(
                        NamedConnection {
                            name: entry.name.clone(),
                            config: self.connections[j].config.duplicate(),
                        },
                    );
                    next_pools.push(self.pools[j].share());
                    proof {
                        failed_src = failed_src.push(i as int);
                        src = src.push(i as int);
                    }
                },
                Takeover::FailedNew => {
                    failed.push(entry.name.clone());
                    proof {
                        failed_src = failed_src.push(i as int);
                    }
                },
            }
            proof {
                assert(cfg@[i as int].name@ == name);
                let cn = names_of(cfg@.take(i as int));
                assert(names_of(cfg@.take(i + 1)) =~= cn.push(name));
                assert(cn.push(name).drop_last() =~= cn);
                match tg {
                    Takeover::FailedNew => {
                        assert(!old_map.contains_key(name));
                        assert(!target.contains_key(name));
                        assert(next_connections@ == nc0);
                    },
                    Takeover::Created(_) => {
                        assert(!(old_map.contains_key(name) && old_map[name] === new_map[name]));
                        assert(target.contains_key(name));
                        assert(names_of(next_connections@) =~= names_of(nc0).push(name));
                    },
                    _ => {
                        assert(target.contains_key(name));
                        assert(names_of(next_connections@) =~= names_of(nc0).push(name));
                    },
                }
                assert forall|k: int|
                    0 <= k < i + 1 && #[trigger] target.contains_key(cfg@[k].name@) implies exists|j: int|
                        0 <= j < src.len() && src[j] == k by {
                    if k == i {
                        assert(src[src.len() - 1] == k);
                    } else {
                        let j = choose|j: int| 0 <= j < src0.len() && src0[j] == k;
                        assert(src[j] == k);
                    }
                }
                assert forall|k: int|
                    0 <= k < i + 1 && #[trigger] gets_new_pool(old_map, new_map, cfg@[k].name@) implies exists|j: int|
                        0 <= j < created_src.len() && created_src[j] == k by {
                    if k == i {
                        assert(created_src[created_src.len() - 1] == k);
                    } else {
                        let j = choose|j: int| 0 <= j < created0.len() && created0[j] == k;
                        assert(created_src[j] == k);
                    }
                }
                assert forall|k: int|
                    0 <= k < i + 1 && #[trigger] fails_over(old_map, new_map, cfg@[k].name@) implies exists|j: int|
                        0 <= j < failed_src.len() && failed_src[j] == k by {
                    if k == i {
                        assert(failed_src[failed_src.len() - 1] == k);
                    } else {
                        let j = choose|j: int| 0 <= j < failed0.len() && failed0[j] == k;
                        assert(failed_src[j] == k);
                    }
                }
            }
        }
        let mut removed: Vec<String> = Vec::new();
        let ghost mut removed_src: Seq<int> = Seq::empty();
        let old_count = self.connections.len();
        for i in 0..old_count
            invariant
                old_count == self.connections@.len(),
                names_distinct(self.connections@),
                forall|k: int| 0 <= k < cfg@.len() ==> new_map.contains_key(#[trigger] cfg@[k].name@),
                forall|n: Seq<char>| #[trigger] new_map.contains_key(n) ==> exists|k: int|
                    0 <= k < cfg@.len() && cfg@[k].name@ == n,
                removed@.len() == removed_src.len(),
                forall|j: int| 0 <= j < removed_src.len() ==> 0 <= #[trigger] removed_src[j] < i,
                forall|a: int, b: int| 0 <= a < b < removed_src.len() ==> #[trigger] removed_src[a] < #[trigger] removed_src[b],
                forall|j: int| 0 <= j < removed_src.len() ==> #[trigger] removed@[j]@ == self.connections@[removed_src[j]].name@,
                forall|j: int| 0 <= j < removed_src.len() ==> !new_map.contains_key(#[trigger] removed@[j]@),
                forall|k: int|
                    0 <= k < i && !new_map.contains_key(#[trigger] self.connections@[k].name@) ==> exists|j: int|
                        0 <= j < removed_src.len() && removed_src[j] == k,
        {
            let name = &self.connections[i].name;
            let present = position_of(cfg, name);
            let ghost removed0 = removed_src;
            if present.is_none() {
                removed.push(name.clone());
                proof {
                    removed_src = removed_src.push(i as int);
                }
            } else {
                proof {
                    let k = present.unwrap() as int;
                    assert(new_map.contains_key(cfg@[k].name@));
                }
            }
            proof {
                if present.is_none() {
                    assert(!new_map.contains_key(name@)) by {
                        if new_map.contains_key(name@) {
                            let k = choose|k: int| 0 <= k < cfg@.len() && cfg@[k].name@ == name@;
                        }
                    }
                    assert(removed_src[removed_src.len() - 1] == i);
                }
                assert forall|k: int|
                    0 <= k < i + 1 && !new_map.contains_key(#[trigger] self.connections@[k].name@) implies exists|j: int|
                        0 <= j < removed_src.len() && removed_src[j] == k by {
                    if k == i {
                        if present.is_some() {
                            let f = present.unwrap() as int;
                            assert(cfg@[f].name@ == self.connections@[k].name@);
                            assert(new_map.contains_key(cfg@[f].name@));
                        }
                        assert(removed_src[removed_src.len() - 1] == k);
                    } else {
                        let j = choose|j: int| 0 <= j < removed0.len() && removed0[j] == k;
                        assert(removed_src[j] == k);
                    }
                }
            }
        }
        proof {
            let nc = next_connections@;
            assert(names_of(nc) == names_kept(names_of(cfg@), target)) by {
                assert(cfg@.take(count as int) =~= cfg@);
            }
            assert(names_distinct(nc)) by {
                assert forall|a: int, b: int|
                    0 <= a < nc.len() && 0 <= b < nc.len() && a != b implies #[trigger] nc[a].name@
                    != #[trigger] nc[b].name@ by {
                    if a < b {
                        assert(src[a] < src[b]);
                    } else {
                        assert(src[b] < src[a]);
                    }
                }
            }
            lemma_entries_map(nc);
            assert(entries_map(nc) =~= target) by {
                assert forall|n: Seq<char>| #[trigger] target.contains_key(n) implies entries_map(nc).contains_key(n) by {
                    let k = choose|k: int| 0 <= k < cfg@.len() && cfg@[k].name@ == n;
                    assert(target.contains_key(cfg@[k].name@));
                    let j = choose|j: int| 0 <= j < src.len() && src[j] == k;
                    assert(nc[j].name@ == n);
                }
                assert forall|n: Seq<char>| #[trigger] entries_map(nc).contains_key(n) implies target.contains_key(n)
                    && entries_map(nc)[n] === target[n] by {
                    let j = choose|j: int| 0 <= j < nc.len() && nc[j].name@ == n;
                }
            }
            assert forall|n: Seq<char>| #[trigger] keeps_pool(old_map, new_map, n) implies pool_named(
                nc,
                next_pools@,
                n,
            ) === pool_named(self.connections@, self.pools@, n) by {
                let k = choose|k: int| 0 <= k < cfg@.len() && cfg@[k].name@ == n;
                assert(target.contains_key(cfg@[k].name@));
                let j = choose|j: int| 0 <= j < src.len() && src[j] == k;
                assert(nc[j].name@ == n);
                lemma_pool_named(nc, next_pools@, j);
            }
            let cv = texts_of(created@);
            assert(cv.no_duplicates()) by {
                assert forall|a: int, b: int| 0 <= a < cv.len() && 0 <= b < cv.len() && a != b implies cv[a] != cv[b] by {
                    assert(cv[a] == created@[a]@ && cv[b] == created@[b]@);
                    if a < b {
                        assert(created_src[a] < created_src[b]);
                    } else {
                        assert(created_src[b] < created_src[a]);
                    }
                }
            }
            assert forall|n: Seq<char>| #[trigger] cv.contains(n) <==> gets_new_pool(old_map, new_map, n) by {
                if cv.contains(n) {
                    let j = choose|j: int| 0 <= j < cv.len() && cv[j] == n;
                    assert(cv[j] == created@[j]@);
                }
                if gets_new_pool(old_map, new_map, n) {
                    let k = choose|k: int| 0 <= k < cfg@.len() && cfg@[k].name@ == n;
                    assert(gets_new_pool(old_map, new_map, cfg@[k].name@));
                    let j = choose|j: int| 0 <= j < created_src.len() && created_src[j] == k;
                    assert(cv[j] == n);
                }
            }
            let fv = texts_of(failed@);
            assert(fv.no_duplicates()) by {
                assert forall|a: int, b: int| 0 <= a < fv.len() && 0 <= b < fv.len() && a != b implies fv[a] != fv[b] by {
                    assert(fv[a] == failed@[a]@ && fv[b] == failed@[b]@);
                    if a < b {
                        assert(failed_src[a] < failed_src[b]);
                    } else {
                        assert(failed_src[b] < failed_src[a]);
                    }
                }
            }
            assert forall|n: Seq<char>| #[trigger] fv.contains(n) <==> fails_over(old_map, new_map, n) by {
                if fv.contains(n) {
                    let j = choose|j: int| 0 <= j < fv.len() && fv[j] == n;
                    assert(fv[j] == failed@[j]@);
                }
                if fails_over(old_map, new_map, n) {
                    let k = choose|k: int| 0 <= k < cfg@.len() && cfg@[k].name@ == n;
                    assert(fails_over(old_map, new_map, cfg@[k].name@));
                    let j = choose|j: int| 0 <= j < failed_src.len() && failed_src[j] == k;
                    assert(fv[j] == n);
                }
            }
            let rv = texts_of(removed@);
            assert(rv.no_duplicates()) by {
                assert forall|a: int, b: int| 0 <= a < rv.len() && 0 <= b < rv.len() && a != b implies rv[a] != rv[b] by {
                    assert(rv[a] == removed@[a]@ && rv[b] == removed@[b]@);
                    if a < b {
                        assert(removed_src[a] < removed_src[b]);
                    } else {
                        assert(removed_src[b] < removed_src[a]);
                    }
                }
            }
            assert forall|n: Seq<char>| #[trigger] rv.contains(n) <==> (old_map.contains_key(n) && !new_map.contains_key(n)) by {
                if rv.contains(n) {
                    let j = choose|j: int| 0 <= j < rv.len() && rv[j] == n;
                    assert(rv[j] == removed@[j]@);
                    assert(old_map.contains_key(self.connections@[removed_src[j]].name@));
                }
                if old_map.contains_key(n) && !new_map.contains_key(n) {
                    let k = choose|k: int| 0 <= k < self.connections@.len() && self.connections@[k].name@ == n;
                    let j = choose|j: int| 0 <= j < removed_src.len() && removed_src[j] == k;
                    assert(rv[j] == n);
                }
            }
        }
        proof {
            assert forall|n: Seq<char>| #[trigger] entries_map(next_connections@).contains_key(n) implies pool_serves(
                pool_named(next_connections@, next_pools@, n),
                entries_map(next_connections@)[n],
            ) by {
                lemma_pools_serve(next_connections@, next_pools@, n);
            }
            assert forall|n: Seq<char>| #[trigger] gets_new_pool(old_map, new_map, n) implies pool_serves(
                pool_named(next_connections@, next_pools@, n),
                new_map[n],
            ) by {
                lemma_pools_serve(next_connections@, next_pools@, n);
                assert(!keeps_pool(old_map, new_map, n));
                assert(target.contains_key(n) && target[n] === new_map[n]);
                assert(entries_map(next_connections@).contains_key(n));
            }
        }
        *self = DbManager { connections: next_connections, pools: next_pools };
        ReloadReport { created, failed, removed }
    }

    /// Decides how the configured `entry` is taken over, making a pool
    /// within `rt` where one is needed.
    fn take_over(&self, entry: &NamedConnection, rt: &tokio::runtime::Handle) -> (t: Takeover)
        ensures
            match t {
                Takeover::Unchanged(j) => j < self.connections@.len() && self.connections@[j as int].name@
                    == entry.name@ && self.connections@[j as int].config@ === entry.config@,
                Takeover::Created(p) => pool_creatable(entry.config@) && pool_serves(p, entry.config@) && forall|j: int|
                    0 <= j < self.connections@.len() && self.connections@[j].name@ == entry.name@
                        ==> !(self.connections@[j].config@ === entry.config@),
                Takeover::FailedKeepOld(j) => j < self.connections@.len() && self.connections@[j as int].name@
                    == entry.name@ && !(self.connections@[j as int].config@ === entry.config@)
                    && !pool_creatable(entry.config@),
                Takeover::FailedNew => !pool_creatable(entry.config@) && forall|j: int|
                    0 <= j < self.connections@.len() ==> self.connections@[j].name@ != entry.name@,
            },
    {
        let found = position_of(&self.connections, &entry.name);
        match found {
            Some(j) => {
                if self.connections[j].config.same_settings(&entry.config) {
                    return Takeover::Unchanged(j);
                }
            },
            None => {},
        }
        proof {
            use_type_invariant(self);
            match found {
                Some(j) => {
                    assert forall|k: int|
                        0 <= k < self.connections@.len() && self.connections@[k].name@ == entry.name@
                            implies !(self.connections@[k].config@ === entry.config@) by {
                        if k != j {
                            assert(self.connections@[k].name@ != self.connections@[j as int].name@);
                        }
                    }
                },
                None => {},
            }
        }
        let url = entry.config.connection_url();
        match connect_lazy_pool(url.as_str(), MAX_POOL_CONNECTIONS, rt) {
            Some(pool) => Takeover::Created(pool),
            None => match found {
                Some(j) => Takeover::FailedKeepOld(j),
                None => Takeover::FailedNew,
            },
        }
    }

    /// A name is listed exactly when a data source of that name is
    /// configured, which is exactly when its pool can be had.
    pub proof fn lemma_listed_iff_configured(&self, n: Seq<char>)
        ensures
            self.names().contains(n) <==> self@.contains_key(n),
    {
        crate::config::lemma_entries_map_keys(self.connections@);
        let ns = names_of(self.connections@);
        if ns.contains(n) {
            let j = choose|j: int| 0 <= j < ns.len() && ns[j] == n;
            assert(self.connections@[j].name@ == n);
        }
        if self@.contains_key(n) {
            let j = choose|j: int| 0 <= j < self.connections@.len() && self.connections@[j].name@ == n;
            assert(ns[j] == n);
        }
    }

    /// The names of the data sources, each once.
    pub fn list_connections(&self) -> (names: Vec<String>)
        ensures
            texts_of(names@) == self.names(),
            self.names().no_duplicates(),
            forall|n: Seq<char>| #[trigger] self.names().contains(n) <==> self@.contains_key(n),
    {
        proof {
            use_type_invariant(self);
            lemma_entries_map(self.connections@);
        }
        let mut names: Vec<String> = Vec::new();
        let n = self.connections.len();
        for i in 0..n
            invariant
                n == self.connections@.len(),
                names@.len() == i,
                forall|j: int| 0 <= j < i ==> #[trigger] names@[j]@ == self.connections@[j].name@,
        {
            names.push(self.connections[i].name.clone());
        }
        proof {
            let ns = names_of(self.connections@);
            assert(texts_of(names@) =~= ns);
            assert forall|a: int, b: int| 0 <= a < ns.len() && 0 <= b < ns.len() && a != b implies ns[a] != ns[b] by {
                assert(ns[a] == self.connections@[a].name@);
                assert(ns[b] == self.connections@[b].name@);
            }
            assert forall|k: Seq<char>| #[trigger] ns.contains(k) <==> self@.contains_key(k) by {
                if ns.contains(k) {
                    let j = choose|j: int| 0 <= j < ns.len() && ns[j] == k;
                    assert(ns[j] == self.connections@[j].name@);
                }
                if self@.contains_key(k) {
                    let j = choose|j: int| 0 <= j < self.connections@.len() && self.connections@[j].name@ == k;
                    assert(ns[j] == k);
                }
            }
        }
        names
    }

    /// The pool of the data source of a name; an error when none is configured.
    pub fn get_pool(&self, name: &str) -> (r: Result<MySqlPool, DbError>)
        ensures
            r is Ok <==> self@.contains_key(name@),
            r matches Ok(p) ==> p === self.pool_of(name@) && pool_serves(p, self@[name@]),
            r matches Err(DbError::ConnectionNotFound(n)) ==> n@ == name@,
    {
        proof {
            use_type_invariant(self);
            lemma_entries_map(self.connections@);
        }
        let key = String::from_str(name);
        match position_of(&self.connections, &key) {
            Some(i) => {
                proof {
                    lemma_pool_named(self.connections@, self.pools@, i as int);
                }
                Ok(self.pools[i].share())
            },
            None => {
                proof {
                    if self@.contains_key(name@) {
                        let j = choose|j: int|
                            0 <= j < self.connections@.len() && self.connections@[j].name@ == name@;
                    }
                }
                Err(DbError::ConnectionNotFound(key))
            },
        }
    }
}

impl View for DbManager {
    type V = Map<Seq<char>, ConnectionConfigView>;

    closed spec fn view(&self) -> Map<Seq<char>, ConnectionConfigView> {
        entries_map(self.connections@)
    }
}


/// Only data sources that the new configuration names stay.
pub proof fn lemma_reload_only_configured(
    old: Map<Seq<char>, ConnectionConfigView>,
    new: Map<Seq<char>, ConnectionConfigView>,
)
    ensures
        forall|n: Seq<char>| #[trigger] reloaded(old, new).contains_key(n) ==> new.contains_key(n),
{
}

/// When a pool can be made for the settings of every data source that the
/// new configuration names, taking it over leaves exactly that configuration.
pub proof fn lemma_reload_takes_whole_config(
    old: Map<Seq<char>, ConnectionConfigView>,
    new: Map<Seq<char>, ConnectionConfigView>,
)
    requires
        forall|n: Seq<char>| #[trigger] new.contains_key(n) ==> pool_creatable(new[n]),
    ensures
        reloaded(old, new) == new,
{
    assert(reloaded(old, new) =~= new);
}

/// Taking over the same configuration a second time changes nothing more.
pub proof fn lemma_reload_idempotent(
    old: Map<Seq<char>, ConnectionConfigView>,
    new: Map<Seq<char>, ConnectionConfigView>,
)
    ensures
        reloaded(reloaded(old, new), new) == reloaded(old, new),
        forall|n: Seq<char>| #[trigger] reloaded(old, new).contains_key(n) ==> keeps_pool(
            reloaded(old, new),
            new,
            n,
        ),
{
    let r = reloaded(old, new);
    assert(reloaded(r, new) =~= r);
}

/// Taking over the same configuration a second time lists the same data
/// sources in the same order.
pub proof fn lemma_reload_twice_same_listing(
    old: Map<Seq<char>, ConnectionConfigView>,
    new: Map<Seq<char>, ConnectionConfigView>,
    configured: Seq<Seq<char>>,
)
    ensures
        names_kept(configured, reloaded(reloaded(old, new), new)) == names_kept(configured, reloaded(old, new)),
{
    lemma_reload_idempotent(old, new);
}

/// Taking over the configuration already in force changes nothing, and
/// every data source keeps its pool.
pub proof fn lemma_reload_unchanged(m: Map<Seq<char>, ConnectionConfigView>)
    ensures
        reloaded(m, m) == m,
        forall|n: Seq<char>| #[trigger] m.contains_key(n) ==> keeps_pool(m, m, n),
{
    assert(reloaded(m, m) =~= m);
}
} // verus!
