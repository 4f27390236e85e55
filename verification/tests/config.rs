use mina_mesh::api::block::BlockRoute;
use mina_mesh::config::{
    genesis_of_daemon, GenesisNext, GenesisRetry, GenesisSource, GenesisStep, MinaMeshConfig,
    CACHE_TTL_SECONDS, CACHE_TX_SIZE, GENESIS_ATTEMPTS, GENESIS_RETRY_SECONDS,
};
use mina_mesh::error::MinaMeshError;
use mina_mesh::mesh::{MinaMesh, NodeBackend};
use mina_mesh::text::ParseIntError;
use mina_mesh::types::{BlockIdentifier, PartialBlockIdentifier};

fn config(indexer: Option<&str>, archive: Option<&str>, light_node: Option<&str>) -> MinaMeshConfig {
    MinaMeshConfig {
        proxy_url: "http://daemon/graphql".to_string(),
        archive_database_url: archive.map(str::to_string),
        max_db_pool_size: 128,
        db_pool_idle_timeout: 1,
        use_search_tx_optimizations: true,
        light_node_url: light_node.map(str::to_string),
        indexer_url: indexer.map(str::to_string),
        network: "devnet".to_string(),
    }
}

fn started(config: MinaMeshConfig) -> MinaMesh {
    config.to_mina_mesh().unwrap().with_genesis(BlockIdentifier::new(1, "genesis".to_string()))
}

#[test]
fn history_must_be_backed() {
    let error = config(None, None, Some("http://light")).to_mina_mesh().unwrap_err();
    match error {
        MinaMeshError::Exception(m) => assert_eq!(
            m,
            "set MINAMESH_INDEXER_URL or MINAMESH_ARCHIVE_DATABASE_URL (one backs historical reads)"
        ),
        other => panic!("{other:?}"),
    }
}

#[test]
fn archive_server_with_a_daemon() {
    let startup = config(None, Some("postgres://archive"), None).to_mina_mesh().unwrap();
    let pool = startup.pg_pool.as_ref().unwrap();
    assert_eq!(pool.url, "postgres://archive");
    assert_eq!(pool.max_connections, 128);
    assert_eq!(pool.min_connections, 0);
    assert_eq!(pool.idle_timeout, 1);
    assert_eq!(startup.network_id, "mina:devnet");
    assert!(matches!(
        startup.genesis_source(),
        Ok(GenesisSource::Daemon(url)) if url == "http://daemon/graphql"
    ));

    let mesh = startup.with_genesis(BlockIdentifier::new(1, "genesis".to_string()));
    assert!(matches!(&mesh.node, NodeBackend::Daemon(url) if url == "http://daemon/graphql"));
    assert_eq!(mesh.network_id, "mina:devnet");
    assert_eq!(mesh.genesis_block_identifier.index, 1);
    assert_eq!(mesh.genesis_block_identifier.hash, "genesis");
    assert!(mesh.search_tx_optimized);
    assert!(mesh.cache.is_empty());
    assert_eq!(mesh.cache_ttl, 300);
    assert_eq!(mesh.cache_tx_size, 100);
    assert_eq!(mesh.cache_ttl, CACHE_TTL_SECONDS);
    assert_eq!(mesh.cache_tx_size, CACHE_TX_SIZE);
    assert_eq!(mesh.indexer, None);
}

#[test]
fn cache_starts_empty_and_takes_entries() {
    let mesh = started(config(Some("http://indexer"), None, None));
    assert_eq!(mesh.cache.len(), 0);
    let entry = ("mina:devnet".to_string(), std::time::Instant::now());
    mesh.cache.insert("network_id".to_string(), entry);
    assert_eq!(mesh.cache.get("network_id").unwrap().0, "mina:devnet");
    assert!(started(config(Some("http://indexer"), None, None)).cache.is_empty());
}

#[test]
fn trustless_servers_never_have_a_daemon() {
    for archive in [None, Some("postgres://archive")] {
        let mesh = started(config(Some("http://indexer"), archive, None));
        assert!(matches!(mesh.node, NodeBackend::Absent));
        assert_eq!(mesh.best_tip_endpoint(), None);
        let mesh = started(config(Some("http://indexer"), archive, Some("http://light")));
        assert!(matches!(mesh.node, NodeBackend::LightNode(_)));
        assert_eq!(mesh.best_tip_endpoint(), None);
    }
}

#[test]
fn light_node_replaces_the_daemon() {
    let mesh = started(config(None, Some("postgres://archive"), Some("http://light/")));
    match &mesh.node {
        NodeBackend::LightNode(client) => assert_eq!(client.tip().url, "http://light/tip"),
        other => panic!("{other:?}"),
    }
}

#[test]
fn every_started_server_reads_history() {
    for (indexer, archive) in [
        (Some("http://indexer"), None),
        (None, Some("postgres://archive")),
        (Some("http://indexer"), Some("postgres://archive")),
    ] {
        let mesh = started(config(indexer, archive, None));
        let route = mesh.block(&PartialBlockIdentifier { index: Some(1), hash: None }).unwrap();
        assert_eq!(matches!(route, BlockRoute::Indexer(_)), indexer.is_some());
    }
}

#[test]
fn daemon_needs_a_url() {
    let mut no_proxy = config(None, Some("postgres://archive"), None);
    no_proxy.proxy_url = String::new();
    assert!(matches!(
        no_proxy.to_mina_mesh().unwrap().genesis_source(),
        Err(MinaMeshError::GraphqlUriNotSet)
    ));
    let mut trustless = config(Some("http://indexer"), None, None);
    trustless.proxy_url = String::new();
    assert!(matches!(
        trustless.to_mina_mesh().unwrap().genesis_source(),
        Ok(GenesisSource::Indexer(_))
    ));
}

#[test]
fn genesis_block_of_the_daemon() {
    let genesis = genesis_of_daemon("1", "3Nk".to_string()).unwrap();
    assert_eq!((genesis.index, genesis.hash.as_str()), (1, "3Nk"));
    assert!(matches!(
        genesis_of_daemon("one", "3Nk".to_string()),
        Err(MinaMeshError::ParseInt(ParseIntError::InvalidDigit))
    ));
}

fn first_retry() -> GenesisRetry {
    match config(Some("http://indexer"), None, None).to_mina_mesh().unwrap().genesis_source() {
        Ok(GenesisSource::Indexer(retry)) => retry,
        other => panic!("{other:?}"),
    }
}

#[test]
fn genesis_block_of_the_indexer() {
    match first_retry().answered(Ok((359_605, "3NK".to_string()))) {
        GenesisStep::Found(genesis) => {
            assert_eq!((genesis.index, genesis.hash.as_str()), (359_605, "3NK"))
        }
        other => panic!("{other:?}"),
    }
}

#[test]
fn indexer_is_asked_thirty_times() {
    assert_eq!(GENESIS_ATTEMPTS, 30);
    assert_eq!(GENESIS_RETRY_SECONDS, 2);
    let mut retry = first_retry();
    for attempt in 1..=30 {
        let waiting = match retry.answered(Err(format!("error {attempt}"))) {
            GenesisStep::Wait(seconds, waiting) => {
                assert_eq!(seconds, 2);
                waiting
            }
            other => panic!("{other:?}"),
        };
        retry = match waiting.waited() {
            GenesisNext::Ask(next) => {
                assert!(attempt < 30);
                next
            }
            GenesisNext::GiveUp(MinaMeshError::Exception(m)) => {
                assert_eq!(attempt, 30);
                assert_eq!(m, "indexer not reachable for genesis identifier: Some(error 30)");
                return;
            }
            other => panic!("{other:?}"),
        };
    }
    unreachable!()
}
