//! The configuration, and the start of the server.

use vstd::prelude::*;

use crate::api::block::BlockRoute;
use crate::api::search_transactions::show_option;
use crate::cache::new_cache;
use crate::error::MinaMeshError;
use crate::light_node::LightNodeClient;
use crate::mesh::{ArchivePool, MinaMesh, NodeBackend};
use crate::text::parse_i64;
use crate::types::{BlockIdentifier, PartialBlockIdentifier};

verus! {

/// How often the indexer is asked for the genesis block before the server gives up.
pub const GENESIS_ATTEMPTS: u32 = 30;

/// How many seconds pass between two such questions.
pub const GENESIS_RETRY_SECONDS: u64 = 2;

/// For how many seconds a cache entry is good.
pub const CACHE_TTL_SECONDS: u64 = 300;

/// How many of the last submitted transactions are cached.
pub const CACHE_TX_SIZE: usize = 100;

/// The configuration of the server.
#[derive(Debug)]
pub struct MinaMeshConfig {
    /// The URL of the Mina GraphQL.
    pub proxy_url: String,
    /// The URL of the archive database. Optional where `indexer_url` is set: historical reads then
    /// come from the trustless indexer.
    pub archive_database_url: Option<String>,
    /// The greatest number of concurrent connections to the archive.
    pub max_db_pool_size: u32,
    /// For how many seconds a connection to the archive may stay unused before it is closed.
    pub db_pool_idle_timeout: u64,
    /// Whether searches use the optimized queries.
    pub use_search_tx_optimizations: bool,
    /// The URL of a trustless light node. Where it is set, live state is served from there instead
    /// of the daemon.
    pub light_node_url: Option<String>,
    /// The URL of a trustless indexer. Where it is set, historical reads are served from there
    /// instead of the archive.
    pub indexer_url: Option<String>,
    /// The name of the network, such as `devnet` or `mainnet`.
    pub network: String,
}

/// A server that knows its backends, but not yet its genesis block.
#[derive(Debug)]
pub struct Startup {
    pub node: NodeBackend,
    pub network_id: String,
    /// The pool to connect, before anything else is done.
    pub pg_pool: Option<ArchivePool>,
    pub search_tx_optimized: bool,
    pub indexer: Option<String>,
    pub proxy_url: String,
}

/// Whom to ask for the genesis block.
#[derive(Debug)]
pub enum GenesisSource {
    /// The indexer, again while it does not answer: it may still be starting.
    Indexer(GenesisRetry),
    /// The daemon at this GraphQL endpoint.
    Daemon(String),
}

/// How far the questions to the indexer have come.
#[derive(Debug)]
pub struct GenesisRetry {
    pub attempts_left: u32,
    /// Why the last question failed, in the text of its error.
    pub last: Option<String>,
}

/// What to do after an answer of the indexer.
#[derive(Debug)]
pub enum GenesisStep {
    /// The genesis block is known.
    Found(BlockIdentifier),
    /// Wait for these seconds, and then see how to go on.
    Wait(u64, GenesisRetry),
}

/// How to go on after the wait.
#[derive(Debug)]
pub enum GenesisNext {
    /// Ask the indexer again.
    Ask(GenesisRetry),
    /// Give up.
    GiveUp(MinaMeshError),
}

impl MinaMeshConfig {
    /// Whether something backs historical reads.
    pub open spec fn history_backed(self) -> bool {
        self.indexer_url is Some || self.archive_database_url is Some
    }

    /// Whether `node` is the live node of this configuration: the light node where one is set. A
    /// daemon only where there is no light node and no indexer, that is, never in a trustless
    /// deployment.
    pub open spec fn has_node(self, node: NodeBackend) -> bool {
        match self.light_node_url {
            Some(url) => node matches NodeBackend::LightNode(client) && client.url()
                == crate::text::without_trailing_slashes(url@),
            None => if self.indexer_url is Some {
                node is Absent
            } else {
                node == NodeBackend::Daemon(self.proxy_url)
            },
        }
    }

    /// Whether `pool` is the archive's pool of this configuration.
    pub open spec fn has_pool(self, pool: Option<ArchivePool>) -> bool {
        match self.archive_database_url {
            Some(url) => pool == Some(
                ArchivePool {
                    url,
                    max_connections: self.max_db_pool_size,
                    min_connections: 0,
                    idle_timeout: self.db_pool_idle_timeout,
                },
            ),
            None => pool is None,
        }
    }

    /// Whether `startup` holds the backends of this configuration.
    pub open spec fn begins(self, startup: Startup) -> bool {
        &&& self.has_node(startup.node)
        &&& self.has_pool(startup.pg_pool)
        &&& startup.network_id@ == "mina:"@ + self.network@
        &&& startup.search_tx_optimized == self.use_search_tx_optimizations
        &&& startup.indexer == self.indexer_url
        &&& startup.proxy_url == self.proxy_url
    }

    /// Begins the start of the server: fails unless the indexer or the archive backs historical
    /// reads.
    pub fn to_mina_mesh(self) -> (startup: Result<Startup, MinaMeshError>)
        ensures
            match startup {
                Ok(s) => self.history_backed() && self.begins(s),
                Err(e) => !self.history_backed() && e.is_exception(
                    "set MINAMESH_INDEXER_URL or MINAMESH_ARCHIVE_DATABASE_URL (one backs historical reads)"@,
                ),
            },
    {
        if self.indexer_url.is_none() && self.archive_database_url.is_none() {
            return Err(
                MinaMeshError::Exception(
                    "set MINAMESH_INDEXER_URL or MINAMESH_ARCHIVE_DATABASE_URL (one backs historical reads)".to_owned(),
                ),
            );
        }
        let node = match self.light_node_url {
            Some(url) => NodeBackend::LightNode(LightNodeClient::new(url)),
            None => if self.indexer_url.is_some() {
                NodeBackend::Absent
            } else {
                NodeBackend::Daemon(self.proxy_url.clone())
            },
        };
        let pg_pool = match self.archive_database_url {
            Some(url) => Some(
                ArchivePool {
                    url,
                    max_connections: self.max_db_pool_size,
                    min_connections: 0,
                    idle_timeout: self.db_pool_idle_timeout,
                },
            ),
            None => None,
        };
        let mut network_id = "mina:".to_owned();
        network_id.append(self.network.as_str());
        Ok(
            Startup {
                node,
                network_id,
                pg_pool,
                search_tx_optimized: self.use_search_tx_optimizations,
                indexer: self.indexer_url,
                proxy_url: self.proxy_url,
            },
        )
    }
}

impl Startup {
    /// Whether `source` is whom to ask for the genesis block: the indexer where one is configured,
    /// else the daemon. Where that has no URL, it is the error that says so.
    pub open spec fn has_source(self, source: Result<GenesisSource, MinaMeshError>) -> bool {
        if self.indexer is Some {
            source == Ok::<GenesisSource, MinaMeshError>(
                GenesisSource::Indexer(GenesisRetry::first()),
            )
        } else if self.proxy_url@.len() > 0 {
            source == Ok::<GenesisSource, MinaMeshError>(GenesisSource::Daemon(self.proxy_url))
        } else {
            source == Err::<GenesisSource, MinaMeshError>(MinaMeshError::GraphqlUriNotSet)
        }
    }

    /// Whether `mesh` is the server, with the given genesis block and nothing in its cache.
    pub open spec fn becomes(self, genesis: BlockIdentifier, mesh: MinaMesh) -> bool {
        &&& mesh.node == self.node
        &&& mesh.network_id == self.network_id
        &&& mesh.pg_pool == self.pg_pool
        &&& mesh.genesis_block_identifier == genesis
        &&& mesh.search_tx_optimized == self.search_tx_optimized
        &&& crate::cache::cache_entries(mesh.cache) == crate::cache::no_entries()
        &&& mesh.cache_ttl == CACHE_TTL_SECONDS
        &&& mesh.cache_tx_size == CACHE_TX_SIZE
        &&& mesh.indexer == self.indexer
    }

    /// Decides whom to ask for the genesis block: the indexer where one is configured, else the
    /// daemon, whose URL must not be empty then.
    pub fn genesis_source(&self) -> (source: Result<GenesisSource, MinaMeshError>)
        ensures
            self.has_source(source),
    {
        if self.indexer.is_some() {
            return Ok(
                GenesisSource::Indexer(
                    GenesisRetry { attempts_left: GENESIS_ATTEMPTS, last: None },
                ),
            );
        }
        if self.proxy_url.as_str().is_empty() {
            return Err(MinaMeshError::GraphqlUriNotSet);
        }
        Ok(GenesisSource::Daemon(self.proxy_url.clone()))
    }

    /// The server, once its genesis block is known. Its cache is empty.
    pub fn with_genesis(self, genesis_block_identifier: BlockIdentifier) -> (mesh: MinaMesh)
        ensures
            self.becomes(genesis_block_identifier, mesh),
    {
        MinaMesh {
            node: self.node,
            network_id: self.network_id,
            pg_pool: self.pg_pool,
            genesis_block_identifier,
            search_tx_optimized: self.search_tx_optimized,
            cache: new_cache(),
            cache_ttl: CACHE_TTL_SECONDS,
            cache_tx_size: CACHE_TX_SIZE,
            indexer: self.indexer,
        }
    }
}

/// The genesis block, as the daemon names it: its height in decimal, and its state hash.
pub fn genesis_of_daemon(block_height: &str, state_hash: String) -> (genesis: Result<
    BlockIdentifier,
    MinaMeshError,
>)
    ensures
        match crate::text::parsed_i64(block_height@) {
            Ok(height) => {
                &&& genesis matches Ok(id)
                &&& id.index == height
                &&& id.hash == state_hash
            },
            Err(e) => genesis == Err::<BlockIdentifier, MinaMeshError>(MinaMeshError::ParseInt(e)),
        },
{
    match parse_i64(block_height) {
        Ok(height) => Ok(BlockIdentifier::new(height, state_hash)),
        Err(e) => Err(MinaMeshError::ParseInt(e)),
    }
}

impl GenesisRetry {
    /// Before the first question.
    pub open spec fn first() -> GenesisRetry {
        GenesisRetry { attempts_left: GENESIS_ATTEMPTS, last: None }
    }

    /// After a question that failed with `error`.
    pub open spec fn after(self, error: String) -> GenesisRetry {
        GenesisRetry { attempts_left: (self.attempts_left - 1) as u32, last: Some(error) }
    }

    /// After questions that failed with these errors, in order.
    pub open spec fn after_all(self, errors: Seq<String>) -> GenesisRetry
        decreases errors.len(),
    {
        if errors.len() == 0 {
            self
        } else {
            self.after_all(errors.drop_last()).after(errors.last())
        }
    }

    /// The message for giving up.
    pub open spec fn message(self) -> Seq<char> {
        "indexer not reachable for genesis identifier: "@
            + crate::api::search_transactions::option_text(self.last.deep_view())
    }

    /// Whether `next` is how to go on after the wait: ask again while there are attempts left.
    pub open spec fn goes_on(self, next: GenesisNext) -> bool {
        if self.attempts_left > 0 {
            next == GenesisNext::Ask(self)
        } else {
            next matches GenesisNext::GiveUp(e) && e.is_exception(self.message())
        }
    }

    /// Takes the indexer's answer: the height and the state hash of its oldest block, or the text
    /// of its error. After an error there is a wait, also after the last.
    pub fn answered(self, answer: Result<(u32, String), String>) -> (step: GenesisStep)
        requires
            self.attempts_left > 0,
        ensures
            match answer {
                Ok((height, hash)) => {
                    &&& step matches GenesisStep::Found(id)
                    &&& id.index == height
                    &&& id.hash == hash
                },
                Err(error) => step == GenesisStep::Wait(GENESIS_RETRY_SECONDS, self.after(error)),
            },
    {
        match answer {
            Ok((height, hash)) => GenesisStep::Found(BlockIdentifier::new(height as i64, hash)),
            Err(error) => GenesisStep::Wait(
                GENESIS_RETRY_SECONDS,
                GenesisRetry { attempts_left: self.attempts_left - 1, last: Some(error) },
            ),
        }
    }

    /// Goes on after the wait: asks again while there are attempts left.
    pub fn waited(self) -> (next: GenesisNext)
        ensures
            self.goes_on(next),
    {
        if self.attempts_left > 0 {
            return GenesisNext::Ask(self);
        }
        let mut message = "indexer not reachable for genesis identifier: ".to_owned();
        message.append(show_option(self.last).as_str());
        GenesisNext::GiveUp(MinaMeshError::Exception(message))
    }
}

/// A trustless deployment has no daemon: with an indexer, the live node of the server is a light
/// node, or there is none.
pub proof fn trustless_server_has_no_daemon(
    config: MinaMeshConfig,
    startup: Startup,
    genesis: BlockIdentifier,
    mesh: MinaMesh,
)
    requires
        config.indexer_url is Some,
        config.begins(startup),
        startup.becomes(genesis, mesh),
    ensures
        mesh.node !is Daemon,
        mesh.indexer == config.indexer_url,
{
}

/// Something backs the historical reads of every server that starts: a block request always leads
/// to the indexer or to the archive.
pub proof fn started_server_reads_history(
    config: MinaMeshConfig,
    startup: Startup,
    genesis: BlockIdentifier,
    mesh: MinaMesh,
    partial: PartialBlockIdentifier,
    route: Result<BlockRoute, MinaMeshError>,
)
    requires
        config.history_backed(),
        config.begins(startup),
        startup.becomes(genesis, mesh),
        mesh.routes_block(partial, route),
    ensures
        mesh.indexer is Some || mesh.pg_pool is Some,
        route is Ok,
{
}

/// The daemon of a server that starts has a URL: the start fails before a genesis block is known
/// where it has none.
pub proof fn daemon_has_a_url(
    config: MinaMeshConfig,
    startup: Startup,
    source: GenesisSource,
    genesis: BlockIdentifier,
    mesh: MinaMesh,
    url: String,
)
    requires
        config.begins(startup),
        startup.has_source(Ok(source)),
        startup.becomes(genesis, mesh),
        mesh.node == NodeBackend::Daemon(url),
    ensures
        url == config.proxy_url,
        url@.len() > 0,
{
}

/// The indexer is asked for the genesis block a fixed number of times. While fewer questions have
/// failed, it is asked again; after the last, the start fails with the last of the errors.
pub proof fn genesis_attempts_are_limited(errors: Seq<String>, next: GenesisNext)
    requires
        0 < errors.len() <= GENESIS_ATTEMPTS,
        GenesisRetry::first().after_all(errors).goes_on(next),
    ensures
        GenesisRetry::first().after_all(errors).attempts_left == GENESIS_ATTEMPTS - errors.len(),
        errors.len() < GENESIS_ATTEMPTS ==> next is Ask,
        errors.len() == GENESIS_ATTEMPTS ==> (next matches GenesisNext::GiveUp(e)
            && e.is_exception(
            "indexer not reachable for genesis identifier: Some("@ + errors.last()@ + ")"@,
        )),
{
    lemma_attempts_left(errors);
    reveal_strlit("indexer not reachable for genesis identifier: ");
    reveal_strlit("Some(");
    reveal_strlit("indexer not reachable for genesis identifier: Some(");
    assert("indexer not reachable for genesis identifier: "@ + "Some("@
        =~= "indexer not reachable for genesis identifier: Some("@);
    assert(GenesisRetry::first().after_all(errors).message()
        =~= "indexer not reachable for genesis identifier: Some("@ + errors.last()@ + ")"@);
}

proof fn lemma_attempts_left(errors: Seq<String>)
    requires
        errors.len() <= GENESIS_ATTEMPTS,
    ensures
        GenesisRetry::first().after_all(errors).attempts_left == GENESIS_ATTEMPTS - errors.len(),
    decreases errors.len(),
{
    if errors.len() > 0 {
        lemma_attempts_left(errors.drop_last());
    }
}

/// A server starts exactly if an indexer or an archive is configured.
pub proof fn history_needs_an_indexer_or_an_archive(config: MinaMeshConfig)
    ensures
        config.history_backed() <==> !(config.indexer_url is None
            && config.archive_database_url is None),
{
}

/// The server is what its configuration says: the network behind `mina:`, the archive with its pool
/// settings, the indexer and the optimizations. Its cache is empty; an entry is good for five
/// minutes, and a hundred transactions are cached.
pub proof fn server_is_what_its_configuration_says(
    config: MinaMeshConfig,
    startup: Startup,
    genesis: BlockIdentifier,
    mesh: MinaMesh,
)
    requires
        config.begins(startup),
        startup.becomes(genesis, mesh),
    ensures
        mesh.network_id@ == "mina:"@ + config.network@,
        mesh.search_tx_optimized == config.use_search_tx_optimizations,
        mesh.indexer == config.indexer_url,
        mesh.genesis_block_identifier == genesis,
        crate::cache::cache_entries(mesh.cache) == Map::<Seq<char>, Seq<char>>::empty(),
        mesh.cache_ttl == 300,
        mesh.cache_tx_size == 100,
        config.archive_database_url is None <==> mesh.pg_pool is None,
        mesh.pg_pool matches Some(pool) ==> {
            &&& config.archive_database_url == Some(pool.url)
            &&& pool.max_connections == config.max_db_pool_size
            &&& pool.min_connections == 0
            &&& pool.idle_timeout == config.db_pool_idle_timeout
        },
{
}

/// The live node of a server is its light node, if one is configured, and reached at the URL that
/// is configured, up to slashes at its end. Else it is the daemon, unless there is an indexer.
pub proof fn live_node_is_the_light_node_or_the_daemon(
    config: MinaMeshConfig,
    startup: Startup,
    genesis: BlockIdentifier,
    mesh: MinaMesh,
)
    requires
        config.begins(startup),
        startup.becomes(genesis, mesh),
    ensures
        mesh.node is LightNode <==> config.light_node_url is Some,
        mesh.node is Daemon <==> config.light_node_url is None && config.indexer_url is None,
        mesh.node is Absent <==> config.light_node_url is None && config.indexer_url is Some,
        mesh.node matches NodeBackend::Daemon(url) ==> url == config.proxy_url,
        mesh.node matches NodeBackend::LightNode(client) ==> client.url()
            == crate::text::without_trailing_slashes(config.light_node_url->0@),
{
}

/// The genesis block is asked of the indexer, if one is configured, else of the daemon, if that has
/// a URL, and else of nobody.
pub proof fn genesis_is_asked_of_the_indexer_first(
    config: MinaMeshConfig,
    startup: Startup,
    source: Result<GenesisSource, MinaMeshError>,
)
    requires
        config.begins(startup),
        startup.has_source(source),
    ensures
        config.indexer_url is Some <==> source matches Ok(GenesisSource::Indexer(_)),
        config.indexer_url is None && config.proxy_url@.len() > 0 <==> source matches Ok(
            GenesisSource::Daemon(_),
        ),
        config.indexer_url is None && config.proxy_url@.len() == 0 <==> source is Err,
        source matches Ok(GenesisSource::Daemon(url)) ==> url == config.proxy_url,
        source matches Ok(GenesisSource::Indexer(retry)) ==> retry.attempts_left == 30
            && retry.last is None,
        source matches Err(e) ==> e is GraphqlUriNotSet,
{
}

/// A failed question costs one attempt, and its error is kept. The next question is asked while an
/// attempt is left, two seconds later.
pub proof fn failed_question_costs_one_attempt(
    retry: GenesisRetry,
    error: String,
    next: GenesisNext,
)
    requires
        retry.attempts_left > 0,
        retry.after(error).goes_on(next),
    ensures
        retry.after(error).attempts_left == retry.attempts_left - 1,
        retry.after(error).last == Some(error),
        GENESIS_RETRY_SECONDS == 2,
        next matches GenesisNext::Ask(again) ==> retry.attempts_left > 1 && again == retry.after(
            error,
        ),
        next is GiveUp ==> retry.attempts_left == 1,
        next matches GenesisNext::GiveUp(e) ==> {
            &&& e is Exception
            &&& e->Exception_0@ == "indexer not reachable for genesis identifier: "@ + "Some("@
                + error@ + ")"@
        },
{
    assert("indexer not reachable for genesis identifier: "@ + ("Some("@ + error@ + ")"@)
        =~= "indexer not reachable for genesis identifier: "@ + "Some("@ + error@ + ")"@);
}

/// Of an indexer that never answers, thirty questions are asked.
pub proof fn thirty_questions_are_asked(errors: Seq<String>, next: GenesisNext)
    requires
        0 < errors.len() <= 30,
        GenesisRetry::first().after_all(errors).goes_on(next),
    ensures
        errors.len() < 30 <==> next is Ask,
        errors.len() == 30 <==> next is GiveUp,
        GenesisRetry::first().after_all(errors).last == Some(errors.last()),
{
    lemma_attempts_left(errors);
}

/// The daemon's genesis block has the height that its text spells, and the hash that it gives; only
/// a text that spells no height is refused.
pub proof fn daemons_genesis_has_its_height(
    block_height: &str,
    state_hash: String,
    genesis: Result<BlockIdentifier, MinaMeshError>,
)
    requires
        call_ensures(genesis_of_daemon, (block_height, state_hash), genesis),
    ensures
        genesis is Ok <==> crate::text::parsed_i64(block_height@) is Ok,
        genesis matches Ok(id) ==> {
            &&& crate::text::parsed_i64(block_height@) == Ok::<int, crate::text::ParseIntError>(
                id.index as int,
            )
            &&& id.hash == state_hash
        },
        genesis matches Err(e) ==> {
            &&& e matches MinaMeshError::ParseInt(cause)
            &&& crate::text::parsed_i64(block_height@) == Err::<int, crate::text::ParseIntError>(
                cause,
            )
        },
{
}

/// The indexer's genesis block has the height and the hash that it gives. An error leads to a wait
/// of two seconds, and to no other end.
pub proof fn indexers_genesis_is_taken_as_it_is(
    retry: GenesisRetry,
    answer: Result<(u32, String), String>,
    step: GenesisStep,
)
    requires
        call_ensures(GenesisRetry::answered, (retry, answer), step),
    ensures
        step is Found <==> answer is Ok,
        step matches GenesisStep::Found(id) ==> {
            &&& id.index == answer->Ok_0.0
            &&& id.hash == answer->Ok_0.1
        },
        step matches GenesisStep::Wait(seconds, next) ==> {
            &&& seconds == 2
            &&& next.last == Some(answer->Err_0)
        },
{
}

/// A configuration starts a server exactly if something backs historical reads, and is told so
/// otherwise.
pub proof fn only_servers_with_history_start(
    config: MinaMeshConfig,
    startup: Result<Startup, MinaMeshError>,
)
    requires
        call_ensures(MinaMeshConfig::to_mina_mesh, (config,), startup),
    ensures
        startup is Ok <==> (config.indexer_url is Some || config.archive_database_url is Some),
        startup matches Ok(s) ==> config.begins(s),
        startup matches Err(e) ==> {
            &&& e is Exception
            &&& e->Exception_0@
                == "set MINAMESH_INDEXER_URL or MINAMESH_ARCHIVE_DATABASE_URL (one backs historical reads)"@
        },
{
}

} // verus!
