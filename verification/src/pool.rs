//! MySQL connection pools, created lazily through sqlx inside a Tokio runtime.

use vstd::prelude::*;

verus! {

/// The sqlx pool of MySQL connections that queries run on. Its state
/// (connections open, tasks) is not modelled.
#[verifier::external_body]
pub struct SqlxPool {
    pub pool: sqlx::Pool<sqlx::MySql>,
}

#[verifier::external_type_specification]
#[verifier::external_body]
pub struct ExHandle(tokio::runtime::Handle);

/// Whether sqlx accepts `url` as the address of a MySQL server (it parses
/// the URL into connection options; nothing is connected).
pub uninterp spec fn mysql_url_accepted(url: Seq<char>) -> bool;

/// A pool of connections to one MySQL server, with the URL that it was
/// made for and the most connections that it opens at a time.
pub struct MySqlPool {
    sqlx: SqlxPool,
    url: Ghost<Seq<char>>,
    max_connections: Ghost<u32>,
}

impl MySqlPool {
    /// The URL of the server that the pool connects to.
    pub closed spec fn url(self) -> Seq<char> {
        self.url@
    }

    /// The most connections that the pool opens at a time.
    pub closed spec fn max_connections(self) -> u32 {
        self.max_connections@
    }

    /// The sqlx pool that queries run on.
    pub closed spec fn handle(self) -> SqlxPool {
        self.sqlx
    }

    /// Hands over the sqlx pool that queries run on.
    pub fn into_sqlx(self) -> (r: SqlxPool)
        ensures
            r === self.handle(),
    {
        self.sqlx
    }

    /// Another handle to the same pool.
    pub fn share(&self) -> (r: MySqlPool)
        ensures
            r === *self,
    {
        MySqlPool { sqlx: self.sqlx.share(), url: self.url, max_connections: self.max_connections }
    }
}

impl SqlxPool {
    /// Calls `Clone::clone` of sqlx's `Pool`, which hands out another handle
    /// to the same pool (an `Arc` clone); the contract states that the two
    /// are the same pool.
    #[verifier::external_body]
    pub fn share(&self) -> (r: SqlxPool)
        ensures
            r === *self,
    {
        SqlxPool { pool: self.pool.clone() }
    }
}

/// Calls `MySqlPoolOptions::new().max_connections(max_connections).connect_lazy(url)`
/// of sqlx within the context of the runtime `rt`, on which sqlx spawns the
/// pool's maintenance task. No connection is opened. The result is a pool
/// exactly when sqlx accepts the URL; that pool connects to the server of
/// `url` and opens at most `max_connections` connections at a time.
#[verifier::external_body]
pub(crate) fn connect_lazy_pool(url: &str, max_connections: u32, rt: &tokio::runtime::Handle) -> (pool:
    Option<MySqlPool>)
    requires
        max_connections > 0,
    ensures
        pool is Some <==> mysql_url_accepted(url@),
        pool matches Some(p) ==> p.url() == url@ && p.max_connections() == max_connections,
{
    let _context = rt.enter();
    match sqlx::mysql::MySqlPoolOptions::new().max_connections(max_connections).connect_lazy(url) {
        Ok(pool) => Some(
            MySqlPool { sqlx: SqlxPool { pool }, url: Ghost(url@), max_connections: Ghost(max_connections) },
        ),
        Err(_) => None,
    }
}

} // verus!
