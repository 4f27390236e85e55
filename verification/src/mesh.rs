//! The configured server.

use vstd::prelude::*;

use crate::archive::{ArchiveQuery, SqlArg};
use crate::error::MinaMeshError;
use crate::light_node::LightNodeClient;
use crate::types::BlockIdentifier;

verus! {

/// The settings of the connection pool of the archive.
#[derive(Debug)]
pub struct ArchivePool {
    pub url: String,
    pub max_connections: u32,
    pub min_connections: u32,
    /// After how many seconds an unused connection is closed.
    pub idle_timeout: u64,
}

/// The live node. It is the only way to a daemon: where no daemon is configured, nothing can fall
/// through to one.
#[derive(Debug)]
pub enum NodeBackend {
    /// A trusted daemon, behind its GraphQL endpoint.
    Daemon(String),
    /// A trustless light node.
    LightNode(LightNodeClient),
    /// No live node: history comes from the indexer, and nothing serves live state.
    Absent,
}

/// The server.
#[derive(Debug)]
pub struct MinaMesh {
    /// The live node.
    pub node: NodeBackend,
    /// The Rosetta network id that the server serves, `mina:<network>`.
    pub network_id: String,
    /// The archive, if one is configured. Where there is an indexer too, historical reads come
    /// from the indexer.
    pub pg_pool: Option<ArchivePool>,
    pub genesis_block_identifier: BlockIdentifier,
    /// Whether searches use the optimized queries.
    pub search_tx_optimized: bool,
    /// Reusable data such as the network id, each with the time at which it was stored.
    pub cache: dashmap::DashMap<String, (String, std::time::Instant)>,
    /// For how many seconds a cache entry is good.
    pub cache_ttl: u64,
    /// How many of the last submitted transactions are cached.
    pub cache_tx_size: usize,
    /// The URL of the trustless indexer; where it is set, historical reads are served from there
    /// instead of the archive.
    pub indexer: Option<String>,
}

impl MinaMesh {
    /// The archive, or an error where only the indexer is configured.
    pub fn pg(&self) -> (pool: Result<&ArchivePool, MinaMeshError>)
        ensures
            match self.pg_pool {
                Some(p) => pool matches Ok(r) && *r == p,
                None => pool matches Err(e) && e.is_exception(
                    "no archive database configured (indexer-only mode)"@,
                ),
            },
    {
        match &self.pg_pool {
            Some(pool) => Ok(pool),
            None => Err(
                MinaMeshError::Exception(
                    "no archive database configured (indexer-only mode)".to_owned(),
                ),
            ),
        }
    }

    /// Whether `query` runs the SQL of `file` with the parameters `args` on the archive, or, where
    /// there is no archive, is the error that says so.
    pub open spec fn asks_archive(
        self,
        query: Result<ArchiveQuery, MinaMeshError>,
        file: Seq<char>,
        args: Seq<SqlArg>,
    ) -> bool {
        match self.pg_pool {
            Some(_) => query matches Ok(q) && q.is(file, args),
            None => query matches Err(e) && e.is_exception(
                "no archive database configured (indexer-only mode)"@,
            ),
        }
    }

    /// A query to the archive, if there is one.
    pub(crate) fn archive_query(&self, file: &'static str, args: Vec<SqlArg>) -> (query: Result<
        ArchiveQuery,
        MinaMeshError,
    >)
        ensures
            self.asks_archive(query, file@, args@),
    {
        match self.pg() {
            Ok(_) => Ok(ArchiveQuery { file, args }),
            Err(e) => Err(e),
        }
    }
}

/// With an archive, a query is run on it as it was put; without one, it fails.
pub proof fn queries_run_where_there_is_an_archive(
    mesh: MinaMesh,
    query: Result<ArchiveQuery, MinaMeshError>,
    file: Seq<char>,
    args: Seq<SqlArg>,
)
    requires
        mesh.asks_archive(query, file, args),
    ensures
        mesh.pg_pool is Some <==> query is Ok,
        query matches Ok(q) ==> q.file@ == file && q.args@ == args,
        query matches Err(e) ==> {
            &&& e is Exception
            &&& e->Exception_0@ == "no archive database configured (indexer-only mode)"@
        },
{
}

} // verus!
