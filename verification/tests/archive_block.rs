use coinbase_mesh::models::Operation;
use dashmap::DashMap;
use mina_mesh::api::block::{
    found_block, height_query, max_canonical_height_query, zkapp_commands_to_transactions,
    BlockMetadata, BlockMetadataQuery, BlockRoute,
};
use mina_mesh::api::indexer_block::IndexerBlockQuery;
use mina_mesh::archive::{ArchiveQuery, SqlArg};
use mina_mesh::commands::TransactionGenerators;
use mina_mesh::error::MinaMeshError;
use mina_mesh::mesh::{ArchivePool, MinaMesh, NodeBackend};
use mina_mesh::text::ParseIntError;
use mina_mesh::types::{
    BlockIdentifier, ChainStatus, InternalCommandMetadata, InternalCommandType,
    PartialBlockIdentifier, TransactionStatus, UserCommandMetadata, UserCommandType, ZkAppBlock,
    ZkAppTransaction,
};

fn mesh(indexer: bool, archive: bool) -> MinaMesh {
    MinaMesh {
        node: NodeBackend::Absent,
        network_id: "mina:devnet".to_string(),
        pg_pool: if archive {
            Some(ArchivePool {
                url: "postgres://archive".to_string(),
                max_connections: 128,
                min_connections: 0,
                idle_timeout: 1,
            })
        } else {
            None
        },
        genesis_block_identifier: BlockIdentifier::new(1, "genesis".to_string()),
        search_tx_optimized: false,
        cache: DashMap::new(),
        cache_ttl: 300,
        cache_tx_size: 100,
        indexer: if indexer { Some("http://indexer".to_string()) } else { None },
    }
}

fn partial(index: Option<i64>, hash: Option<&str>) -> PartialBlockIdentifier {
    PartialBlockIdentifier { index, hash: hash.map(str::to_string) }
}

fn row(height: i64, parent_id: Option<i32>) -> BlockMetadata {
    BlockMetadata {
        id: 7,
        block_winner_id: 1,
        chain_status: Some(ChainStatus::Canonical),
        creator_id: 2,
        global_slot_since_genesis: 3,
        global_slot_since_hard_fork: 4,
        height,
        last_vrf_output: String::new(),
        ledger_hash: String::new(),
        min_window_density: 77,
        next_epoch_data_id: 5,
        state_hash: format!("block {height}"),
        sub_window_densities: vec![1, 2],
        timestamp: "1700000000000".to_string(),
        total_currency: None,
        parent_hash: format!("block {}", height - 1),
        parent_id,
        proposed_protocol_version_id: None,
        protocol_version_id: 6,
        snarked_ledger_hash_id: 8,
        staking_epoch_data_id: 9,
        creator: "B62creator".to_string(),
        winner: "B62winner".to_string(),
    }
}

fn shown(query: &ArchiveQuery) -> (&'static str, String) {
    (query.file, format!("{:?}", query.args))
}

fn exception(error: MinaMeshError) -> String {
    match error {
        MinaMeshError::Exception(m) => m,
        other => panic!("{other:?}"),
    }
}

#[test]
fn indexer_comes_before_the_archive() {
    for archive in [false, true] {
        let mesh = mesh(true, archive);
        assert!(matches!(
            mesh.block(&partial(Some(5), Some("h"))),
            Ok(BlockRoute::Indexer(IndexerBlockQuery::Hash(h))) if h == "h"
        ));
        assert!(matches!(
            mesh.block(&partial(Some(5), None)),
            Ok(BlockRoute::Indexer(IndexerBlockQuery::Height(5)))
        ));
        assert!(matches!(
            mesh.block(&partial(None, None)),
            Ok(BlockRoute::Indexer(IndexerBlockQuery::Tip))
        ));
    }
    assert!(matches!(mesh(false, true).block(&partial(None, None)), Ok(BlockRoute::Archive(_))));
    assert_eq!(
        exception(mesh(false, false).block(&partial(None, None)).unwrap_err()),
        "no archive database configured (indexer-only mode)"
    );
}

#[test]
fn tip_query_takes_the_height_of_the_tip() {
    assert!(matches!(IndexerBlockQuery::Tip.at_tip(9), IndexerBlockQuery::Height(9)));
    assert!(matches!(IndexerBlockQuery::Height(3).at_tip(9), IndexerBlockQuery::Height(3)));
    assert!(matches!(
        IndexerBlockQuery::Hash("h".to_string()).at_tip(9),
        IndexerBlockQuery::Hash(_)
    ));
}

#[test]
fn block_is_looked_up_by_what_the_request_names() {
    let mesh = mesh(false, true);
    let ready = |p: &PartialBlockIdentifier| match mesh.block_metadata(p).unwrap() {
        BlockMetadataQuery::Ready(query) => query,
        other => panic!("{other:?}"),
    };
    assert_eq!(
        shown(&ready(&partial(Some(5), Some("h")))),
        ("sql/queries/query_both.sql", "[Text(Some(\"h\")), Integer(Some(5))]".to_string())
    );
    assert_eq!(
        shown(&ready(&partial(None, Some("h")))),
        ("sql/queries/query_hash.sql", "[Text(Some(\"h\"))]".to_string())
    );
    assert_eq!(
        shown(&ready(&partial(None, None))),
        ("sql/queries/query_best.sql", "[]".to_string())
    );
    assert!(matches!(
        mesh.block_metadata(&partial(Some(5), None)),
        Ok(BlockMetadataQuery::Height(5))
    ));
}

#[test]
fn height_is_looked_up_on_the_canonical_chain_or_among_the_pending() {
    assert_eq!(
        shown(&max_canonical_height_query()),
        ("sql/queries/max_canonical_height.sql", "[]".to_string())
    );
    assert_eq!(
        shown(&height_query(10, 10)),
        ("sql/queries/query_canonical.sql", "[Integer(Some(10))]".to_string())
    );
    assert_eq!(
        shown(&height_query(11, 10)),
        ("sql/queries/query_pending.sql", "[Integer(Some(11))]".to_string())
    );
}

#[test]
fn commands_are_asked_for_by_block() {
    let mesh = mesh(false, true);
    let token = "token".to_string();
    assert_eq!(
        shown(&mesh.user_commands(&row(3, None)).unwrap()),
        ("sql/queries/user_commands.sql", "[Id(7)]".to_string())
    );
    assert_eq!(
        shown(&mesh.internal_commands(&row(3, None), &token).unwrap()),
        ("sql/queries/internal_commands.sql", "[Id(7), Text(Some(\"token\"))]".to_string())
    );
    assert_eq!(
        shown(&mesh.zkapp_commands(&row(3, None), &token).unwrap()),
        ("sql/queries/zkapp_commands.sql", "[Id(7), Text(Some(\"token\"))]".to_string())
    );
    assert_eq!(
        shown(&row(3, Some(6)).parent_query().unwrap()),
        ("sql/queries/query_id.sql", "[Id(6)]".to_string())
    );
    assert!(row(3, None).parent_query().is_none());
}

#[test]
fn archive_queries_need_an_archive() {
    let mesh = mesh(true, false);
    let token = "token".to_string();
    let expected = "no archive database configured (indexer-only mode)";
    assert_eq!(exception(mesh.pg().unwrap_err()), expected);
    assert_eq!(exception(mesh.block_metadata(&partial(None, None)).unwrap_err()), expected);
    assert_eq!(exception(mesh.user_commands(&row(3, None)).unwrap_err()), expected);
    assert_eq!(exception(mesh.internal_commands(&row(3, None), &token).unwrap_err()), expected);
    assert_eq!(exception(mesh.zkapp_commands(&row(3, None), &token).unwrap_err()), expected);
}

#[test]
fn missing_block_names_what_was_asked_for() {
    assert!(matches!(
        found_block(None, &partial(Some(5), Some("h"))),
        Err(MinaMeshError::BlockMissing(Some(5), Some(h))) if h == "h"
    ));
    assert_eq!(found_block(Some(row(3, None)), &partial(Some(3), None)).unwrap(), row(3, None));
}

fn operation(status: &str) -> Operation {
    Operation { status: Some(status.to_string()), ..Operation::default() }
}

fn user(hash: &str) -> UserCommandMetadata {
    UserCommandMetadata {
        command_type: UserCommandType::Payment,
        nonce: 0,
        amount: Some("1".to_string()),
        fee: Some("1".to_string()),
        valid_until: None,
        memo: None,
        hash: hash.to_string(),
        fee_payer: "a".to_string(),
        source: "a".to_string(),
        receiver: "b".to_string(),
        status: TransactionStatus::Applied,
        failure_reason: None,
        creation_fee: None,
    }
}

fn internal(hash: &str, sequence_no: i32) -> InternalCommandMetadata {
    InternalCommandMetadata {
        command_type: InternalCommandType::Coinbase,
        receiver: "producer".to_string(),
        fee: Some("720".to_string()),
        hash: hash.to_string(),
        creation_fee: None,
        sequence_no,
        secondary_sequence_no: 0,
        status: TransactionStatus::Applied,
        coinbase_receiver: Some("producer".to_string()),
    }
}

fn zkapp_block(hashes: &[&str]) -> ZkAppBlock {
    ZkAppBlock {
        block_index: Some(3),
        block_hash: Some("block 3".to_string()),
        timestamp: None,
        transactions: hashes
            .iter()
            .map(|h| ZkAppTransaction { hash: h.to_string(), operations: vec![operation(h)] })
            .collect(),
    }
}

#[test]
fn zkapp_transactions_keep_their_order() {
    let transactions = zkapp_commands_to_transactions(vec![
        zkapp_block(&["z1", "z2"]),
        zkapp_block(&[]),
        zkapp_block(&["z3"]),
    ]);
    let hashes: Vec<&str> =
        transactions.iter().map(|t| t.transaction_identifier.hash.as_str()).collect();
    assert_eq!(hashes, vec!["z1", "z2", "z3"]);
    assert_eq!(transactions[2].operations, vec![operation("z3")]);
    assert_eq!(transactions[2].metadata, None);
    assert_eq!(transactions[2].related_transactions, None);
}

#[test]
fn block_of_the_archive() {
    let generators = TransactionGenerators {
        operations_user_command: |m: &UserCommandMetadata| vec![operation(&m.hash)],
        transaction_metadata: |_: &UserCommandMetadata| None,
        internal_command_transaction_identifier: |t: &InternalCommandType, s: i32, _: i32, h: &String| {
            format!("{t:?}:{s}:{h}")
        },
        operations_internal_command: |m: &InternalCommandMetadata| vec![operation(&m.receiver)],
    };
    let answer = |metadata: &BlockMetadata, parent: Option<BlockMetadata>| {
        generators.block_from_archive(
            metadata,
            &parent,
            &vec![user("u1"), user("u2")],
            &vec![internal("i", 0), internal("i", 1)],
            vec![zkapp_block(&["z"])],
        )
    };
    let response = answer(&row(3, Some(6)), Some(row(2, None))).unwrap();
    assert!(response.other_transactions.is_none());
    let block = response.block.unwrap();
    assert_eq!((block.block_identifier.index, block.block_identifier.hash.as_str()), (3, "block 3"));
    assert_eq!(
        (block.parent_block_identifier.index, block.parent_block_identifier.hash.as_str()),
        (2, "block 2")
    );
    assert_eq!(block.timestamp, 1_700_000_000_000);
    assert_eq!(block.metadata.unwrap().to_string(), "{\"creator\":\"B62creator\"}");
    let hashes: Vec<&str> =
        block.transactions.iter().map(|t| t.transaction_identifier.hash.as_str()).collect();
    assert_eq!(hashes, vec!["Coinbase:0:i", "Coinbase:1:i", "u1", "u2", "z"]);

    let genesis = answer(&row(1, None), None).unwrap().block.unwrap();
    assert_eq!(genesis.parent_block_identifier.index, 1);
    assert_eq!(genesis.parent_block_identifier.hash, "block 1");

    let timeless = BlockMetadata { timestamp: String::new(), ..row(3, None) };
    assert!(matches!(
        answer(&timeless, None),
        Err(MinaMeshError::ParseInt(ParseIntError::Empty))
    ));
}

#[test]
fn arguments_show_their_values() {
    assert_eq!(
        format!("{:?}", SqlArg::Status(Some(TransactionStatus::Failed))),
        "Status(Some(Failed))"
    );
}
