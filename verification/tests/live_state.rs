use dashmap::DashMap;
use mina_mesh::api::mempool::{mempool_response, MempoolRoute};
use mina_mesh::error::MinaMeshError;
use mina_mesh::light_node::LightNodeClient;
use mina_mesh::mesh::{MinaMesh, NodeBackend};
use mina_mesh::types::BlockIdentifier;

fn mesh(node: NodeBackend) -> MinaMesh {
    MinaMesh {
        node,
        network_id: "mina:devnet".to_string(),
        pg_pool: None,
        genesis_block_identifier: BlockIdentifier::new(1, "genesis".to_string()),
        search_tx_optimized: false,
        cache: DashMap::new(),
        cache_ttl: 300,
        cache_tx_size: 100,
        indexer: Some("http://indexer".to_string()),
    }
}

fn daemon() -> MinaMesh {
    mesh(NodeBackend::Daemon("http://daemon/graphql".to_string()))
}

fn light_node() -> MinaMesh {
    mesh(NodeBackend::LightNode(LightNodeClient::new("http://light/".to_string())))
}

#[test]
fn mempool_comes_from_the_live_node() {
    match light_node().mempool().unwrap() {
        MempoolRoute::LightNode(request) => assert_eq!(request.url, "http://light/mempool"),
        other => panic!("{other:?}"),
    }
    assert!(matches!(
        daemon().mempool(),
        Ok(MempoolRoute::Daemon(url)) if url == "http://daemon/graphql"
    ));
    match mesh(NodeBackend::Absent).mempool().unwrap_err() {
        MinaMeshError::Exception(m) => assert_eq!(m, "no live node configured (indexer-only mode)"),
        other => panic!("{other:?}"),
    }
}

#[test]
fn mempool_lists_the_hashes_in_order() {
    let response = mempool_response(vec!["a".to_string(), "b".to_string(), "a".to_string()]);
    let hashes: Vec<&str> =
        response.transaction_identifiers.iter().map(|t| t.hash.as_str()).collect();
    assert_eq!(hashes, vec!["a", "b", "a"]);
    assert!(mempool_response(Vec::new()).transaction_identifiers.is_empty());
}

#[test]
fn best_tip_is_the_first_of_the_best_chain() {
    let mesh = daemon();
    assert_eq!(mesh.best_tip_endpoint().map(String::as_str), Some("http://daemon/graphql"));
    let chain = vec!["tip".to_string(), "parent".to_string()];
    assert_eq!(
        mesh.best_tip_state_hash::<String>(Ok(Some(chain))).as_deref(),
        Some("tip")
    );
    assert_eq!(mesh.best_tip_state_hash::<String>(Ok(Some(Vec::new()))), None);
    assert_eq!(mesh.best_tip_state_hash::<String>(Ok(None)), None);
    assert_eq!(mesh.best_tip_state_hash(Err("connection refused")), None);
}

#[test]
fn best_tip_is_unknown_without_a_daemon() {
    for mesh in [light_node(), mesh(NodeBackend::Absent)] {
        assert_eq!(mesh.best_tip_endpoint(), None);
        let chain = vec!["tip".to_string()];
        assert_eq!(mesh.best_tip_state_hash::<String>(Ok(Some(chain))), None);
    }
}
