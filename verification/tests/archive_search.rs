use coinbase_mesh::models::Operation;
use dashmap::DashMap;
use mina_mesh::api::archive_search::{
    map_to_block_transactions, zkapp_commands_to_block_transactions, UserSearch, ZkAppPage,
};
use mina_mesh::api::indexer_search::SearchRoute;
use mina_mesh::api::search_transactions::{
    adjust_limit_and_offset, SearchTransactionsQueryParams,
};
use mina_mesh::archive::ArchiveQuery;
use mina_mesh::commands::TransactionGenerators;
use mina_mesh::error::MinaMeshError;
use mina_mesh::mesh::{ArchivePool, MinaMesh, NodeBackend};
use mina_mesh::types::{
    AccountIdentifier, BlockIdentifier, BlockTransaction, InternalCommand, InternalCommandMetadata,
    InternalCommandType, SearchTransactionsRequest, SearchTransactionsResponse, Transaction,
    TransactionIdentifier, TransactionStatus, UserCommand, UserCommandMetadata, UserCommandType,
    ZkAppBlock, ZkAppTransaction,
};

fn request() -> SearchTransactionsRequest {
    SearchTransactionsRequest {
        max_block: None,
        offset: None,
        limit: None,
        transaction_identifier: None,
        account_identifier: None,
        status: None,
        address: None,
        success: None,
        include_timestamp: None,
    }
}

fn account(metadata: Option<serde_json::Value>) -> SearchTransactionsRequest {
    SearchTransactionsRequest {
        account_identifier: Some(AccountIdentifier { address: "B62account".to_string(), metadata }),
        ..request()
    }
}

fn object(name: &str, value: serde_json::Value) -> serde_json::Value {
    let mut members = serde_json::Map::new();
    members.insert(name.to_string(), value);
    serde_json::Value::Object(members)
}

fn mesh(optimized: bool, archive: bool) -> MinaMesh {
    MinaMesh {
        node: NodeBackend::Daemon("http://daemon".to_string()),
        network_id: "mina:devnet".to_string(),
        pg_pool: if archive {
            Some(ArchivePool {
                url: "postgres://archive".to_string(),
                max_connections: 128,
                min_connections: 0,
                idle_timeout: 1,
            })
        } else {
            None
        },
        genesis_block_identifier: BlockIdentifier::new(1, "genesis".to_string()),
        search_tx_optimized: optimized,
        cache: DashMap::new(),
        cache_ttl: 300,
        cache_tx_size: 100,
        indexer: None,
    }
}

fn params(req: &SearchTransactionsRequest) -> SearchTransactionsQueryParams {
    SearchTransactionsQueryParams::checked_try_from(req).unwrap().unwrap()
}

#[test]
fn filters_of_a_full_request() {
    let req = SearchTransactionsRequest {
        max_block: Some(10),
        transaction_identifier: Some(TransactionIdentifier { hash: "5J".to_string() }),
        status: Some("failed".to_string()),
        address: Some("B62address".to_string()),
        success: Some(true),
        ..account(Some(object("token_id", serde_json::Value::String("wSH".to_string()))))
    };
    let found = params(&req);
    assert_eq!(found.max_block, Some(10));
    assert_eq!(found.transaction_hash.as_deref(), Some("5J"));
    assert_eq!(found.account_identifier.as_deref(), Some("B62account"));
    assert_eq!(found.token_id.as_deref(), Some("wSH"));
    assert_eq!(found.status, Some(TransactionStatus::Failed));
    assert_eq!(found.success_status, Some(TransactionStatus::Applied));
    assert_eq!(found.address.as_deref(), Some("B62address"));
}

#[test]
fn filters_of_an_empty_request() {
    let found = SearchTransactionsQueryParams::try_from(&request()).unwrap();
    assert_eq!(found.max_block, None);
    assert_eq!(found.transaction_hash, None);
    assert_eq!(found.account_identifier, None);
    assert_eq!(found.token_id, None);
    assert_eq!(found.status, None);
    assert_eq!(found.success_status, None);
    assert_eq!(found.address, None);
    assert_eq!(
        found.to_text(),
        "max_block: None, transaction_hash: None, account_identifier: None, token_id: None, \
         status: None, success_status: None, address: None"
    );
}

#[test]
fn statuses_that_there_are() {
    for (text, status) in
        [("applied", TransactionStatus::Applied), ("failed", TransactionStatus::Failed)]
    {
        let req = SearchTransactionsRequest { status: Some(text.to_string()), ..request() };
        assert_eq!(params(&req).status, Some(status));
    }
    let req = SearchTransactionsRequest { success: Some(false), ..request() };
    assert_eq!(params(&req).success_status, Some(TransactionStatus::Failed));
}

#[test]
fn status_that_there_is_not() {
    for text in ["Applied", "pending", ""] {
        let req = SearchTransactionsRequest { status: Some(text.to_string()), ..request() };
        match SearchTransactionsQueryParams::try_from(&req).unwrap_err() {
            MinaMeshError::Exception(m) => assert_eq!(
                m,
                format!(
                    "Invalid transaction status: '{text}'. Valid statuses are 'applied' and 'failed'"
                )
            ),
            other => panic!("{other:?}"),
        }
        assert!(matches!(
            mesh(false, true).search_transactions(&req),
            Err(MinaMeshError::Exception(_))
        ));
    }
}

#[test]
fn token_id_is_a_string_in_the_metadata_of_the_account() {
    for metadata in [
        None,
        Some(serde_json::Value::Null),
        Some(serde_json::Value::String("token_id".to_string())),
        Some(serde_json::Value::Array(vec![serde_json::Value::Null])),
        Some(object("token", serde_json::Value::Null)),
    ] {
        assert_eq!(params(&account(metadata)).token_id, None);
    }
    for value in [serde_json::Value::Null, serde_json::Value::Bool(true)] {
        let req = account(Some(object("token_id", value)));
        assert!(SearchTransactionsQueryParams::checked_try_from(&req).is_none());
        assert!(mesh(false, true).checked_search_transactions(&req).is_none());
    }
    let found = SearchTransactionsQueryParams::with_token(&request(), Some("t".to_string()));
    assert_eq!(found.unwrap().token_id.as_deref(), Some("t"));
}

#[test]
fn filters_are_written_as_debug_writes_them() {
    let req = SearchTransactionsRequest {
        max_block: Some(-10),
        status: Some("applied".to_string()),
        success: Some(false),
        address: Some("a \"b\"\n\\".to_string()),
        ..account(Some(object("token_id", serde_json::Value::String("wSH".to_string()))))
    };
    assert_eq!(
        params(&req).to_text(),
        "max_block: Some(-10), transaction_hash: None, account_identifier: Some(\"B62account\"), \
         token_id: Some(\"wSH\"), status: Some(Applied), success_status: Some(Failed), \
         address: Some(\"a \\\"b\\\"\\n\\\\\")"
    );
}

#[test]
fn filters_are_written_with_the_quotes_that_are_given() {
    let text = params(&request()).to_text_with(
        Some("<5J>".to_string()),
        None,
        Some("<t>".to_string()),
        Some("<a>".to_string()),
    );
    assert_eq!(
        text,
        "max_block: None, transaction_hash: Some(<5J>), account_identifier: None, \
         token_id: Some(<t>), status: None, success_status: None, address: Some(<a>)"
    );
}

#[test]
fn queries_follow_the_optimizations() {
    let req = SearchTransactionsRequest {
        max_block: Some(3),
        status: Some("applied".to_string()),
        ..request()
    };
    let found = params(&req);
    let args = "[Integer(Some(3)), Text(None), Text(None), Text(None), Status(Some(Applied)), \
                Status(None), Text(None), Integer(Some(20)), Integer(Some(5))]";
    for (optimized, suffix) in [(false, ""), (true, "_optimized")] {
        let mesh = mesh(optimized, true);
        for (query, kind) in [
            (mesh.fetch_user_commands(&found, 5, 20), "user"),
            (mesh.fetch_internal_commands(&found, 5, 20), "internal"),
            (mesh.fetch_zkapp_commands(&found, 5, 20), "zkapp"),
        ] {
            let query = query.unwrap();
            assert_eq!(query.file, format!("sql/queries/indexer_{kind}_commands{suffix}.sql"));
            assert_eq!(format!("{:?}", query.args), args);
        }
    }
    assert!(matches!(
        mesh(false, false).fetch_user_commands(&found, 0, 1),
        Err(MinaMeshError::Exception(m)) if m == "no archive database configured (indexer-only mode)"
    ));
}

#[test]
fn rest_of_a_page() {
    assert_eq!(adjust_limit_and_offset(100, 0, 30), (0, 70));
    assert_eq!(adjust_limit_and_offset(100, 50, 30), (20, 70));
    assert_eq!(adjust_limit_and_offset(10, 10, 30), (0, 0));
    assert_eq!(adjust_limit_and_offset(30, 30, 30), (0, 0));
    assert_eq!(adjust_limit_and_offset(-1, -1, 0), (0, 0));
}

fn operation(status: &str) -> Operation {
    Operation { status: Some(status.to_string()), ..Operation::default() }
}

fn user(hash: &str, total_count: Option<i64>, timestamp: Option<&str>) -> UserCommand {
    UserCommand {
        command: UserCommandMetadata {
            command_type: UserCommandType::Payment,
            nonce: 0,
            amount: Some("1".to_string()),
            fee: Some("1".to_string()),
            valid_until: None,
            memo: None,
            hash: hash.to_string(),
            fee_payer: "a".to_string(),
            source: "a".to_string(),
            receiver: "b".to_string(),
            status: TransactionStatus::Applied,
            failure_reason: None,
            creation_fee: None,
        },
        height: Some(4),
        state_hash: Some("3N4".to_string()),
        timestamp: timestamp.map(str::to_string),
        total_count,
    }
}

fn internal(hash: &str, total_count: Option<i64>) -> InternalCommand {
    InternalCommand {
        command: InternalCommandMetadata {
            command_type: InternalCommandType::FeeTransfer,
            receiver: "c".to_string(),
            fee: Some("2".to_string()),
            hash: hash.to_string(),
            creation_fee: None,
            sequence_no: 1,
            secondary_sequence_no: 2,
            status: TransactionStatus::Applied,
            coinbase_receiver: None,
        },
        height: None,
        state_hash: None,
        timestamp: Some("17".to_string()),
        total_count,
    }
}

fn zkapps(hashes: &[&str]) -> ZkAppBlock {
    ZkAppBlock {
        block_index: Some(5),
        block_hash: Some("3N5".to_string()),
        timestamp: Some("18".to_string()),
        transactions: hashes
            .iter()
            .map(|h| ZkAppTransaction { hash: h.to_string(), operations: vec![operation(h)] })
            .collect(),
    }
}

fn asks(query: Result<ArchiveQuery, MinaMeshError>, kind: &str, page: (i64, i64)) {
    let query = query.unwrap();
    assert_eq!(query.file, format!("sql/queries/indexer_{kind}_commands.sql"));
    assert_eq!(
        format!("{:?}", query.args.get(7..).unwrap()),
        format!("[Integer(Some({})), Integer(Some({}))]", page.1, page.0)
    );
}

/// Runs a search, and gives the pages that were asked for and the answer.
fn search(
    req: SearchTransactionsRequest,
    users: Vec<UserCommand>,
    internals: Vec<InternalCommand>,
    page: ZkAppPage,
) -> (Vec<(i64, i64)>, SearchTransactionsResponse) {
    let generators = TransactionGenerators {
        operations_user_command: |m: &UserCommandMetadata| vec![operation(&m.hash)],
        transaction_metadata: |_: &UserCommandMetadata| Some(serde_json::Value::Bool(true)),
        internal_command_transaction_identifier: |t: &InternalCommandType, s: i32, u: i32, h: &String| {
            format!("{t:?}:{s}:{u}:{h}")
        },
        operations_internal_command: |m: &InternalCommandMetadata| vec![operation(&m.receiver)],
    };
    let mesh = mesh(false, true);
    let first: UserSearch = match mesh.checked_search_transactions(&req) {
        Some(Ok(SearchRoute::Archive(first))) => first,
        other => panic!("{other:?}"),
    };
    let mut pages = vec![(first.offset, first.limit)];
    asks(first.query(&mesh), "user", pages[0]);
    assert!(first.check_fits(&users));
    let second = first.found(&users, &generators);
    pages.push(second.progress.page());
    asks(second.query(&mesh), "internal", pages[1]);
    assert!(second.check_fits(&internals));
    let third = second.found(&internals, &generators);
    pages.push(third.progress.page());
    asks(third.query(&mesh), "zkapp", pages[2]);
    assert!(third.check_fits(&page));
    (pages, third.found(page))
}

fn hashes(response: &SearchTransactionsResponse) -> Vec<&str> {
    response
        .transactions
        .iter()
        .map(|t| t.transaction.transaction_identifier.hash.as_str())
        .collect()
}

#[test]
fn search_gives_all_kinds_in_order() {
    let (pages, response) = search(
        SearchTransactionsRequest { include_timestamp: Some(true), ..request() },
        vec![user("u1", Some(2), Some("16")), user("u2", Some(2), None)],
        vec![internal("i1", Some(1))],
        ZkAppPage { total_counts: vec![Some(2), Some(2)], blocks: vec![zkapps(&["z1", "z2"])] },
    );
    assert_eq!(pages, vec![(0, 100), (0, 98), (0, 97)]);
    assert_eq!(hashes(&response), vec!["u1", "u2", "FeeTransfer:1:2:i1", "z1", "z2"]);
    assert_eq!(
        response.transactions.iter().map(|t| t.timestamp).collect::<Vec<Option<i64>>>(),
        vec![Some(16), None, Some(17), Some(18), Some(18)]
    );
    assert_eq!(response.total_count, 5);
    assert_eq!(response.next_offset, None);
    assert_eq!(response.transactions[0].block_identifier.index, 4);
    assert_eq!(response.transactions[0].block_identifier.hash, "3N4");
    assert_eq!(
        response.transactions[0].transaction.metadata,
        Some(serde_json::Value::Bool(true))
    );
    assert_eq!(response.transactions[2].block_identifier.index, 0);
    assert_eq!(response.transactions[2].block_identifier.hash, "");
    assert_eq!(response.transactions[2].transaction.operations, vec![operation("c")]);
    assert_eq!(response.transactions[3].block_identifier.index, 5);
    assert_eq!(response.transactions[3].transaction.metadata, None);
}

#[test]
fn full_page_is_only_counted_on() {
    let (pages, response) = search(
        SearchTransactionsRequest { limit: Some(2), offset: Some(3), ..request() },
        vec![user("u1", Some(9), Some("16")), user("u2", Some(9), None)],
        vec![internal("i1", Some(4))],
        ZkAppPage { total_counts: vec![Some(5)], blocks: vec![zkapps(&["z1"])] },
    );
    assert_eq!(pages, vec![(3, 2), (0, 1), (0, 1)]);
    assert_eq!(hashes(&response), vec!["u1", "u2"]);
    assert_eq!(response.transactions[0].timestamp, None);
    assert_eq!(response.total_count, 18);
    assert_eq!(response.next_offset, Some(5));
}

#[test]
fn offset_moves_into_the_next_kind() {
    let (pages, response) = search(
        SearchTransactionsRequest { limit: Some(10), offset: Some(7), ..request() },
        Vec::new(),
        vec![internal("i1", Some(9)), internal("i2", Some(9))],
        ZkAppPage { total_counts: vec![None], blocks: Vec::new() },
    );
    assert_eq!(pages, vec![(7, 10), (7, 10), (5, 8)]);
    assert_eq!(response.total_count, 9);
    assert_eq!(response.next_offset, None);
}

#[test]
fn page_below_its_limit_takes_zkapp_commands() {
    let (pages, response) = search(
        SearchTransactionsRequest { limit: Some(5), ..request() },
        vec![user("u1", Some(3), None), user("u2", Some(3), None), user("u3", Some(3), None)],
        Vec::new(),
        ZkAppPage { total_counts: vec![Some(1)], blocks: vec![zkapps(&["z1"])] },
    );
    assert_eq!(pages, vec![(0, 5), (0, 2), (0, 2)]);
    assert_eq!(hashes(&response), vec!["u1", "u2", "u3", "z1"]);
    assert_eq!(response.total_count, 4);
    assert_eq!(response.next_offset, None);
}

#[test]
fn more_than_half_a_page_leaves_room_for_zkapp_commands() {
    let (pages, response) = search(
        SearchTransactionsRequest { offset: Some(0), limit: Some(100), ..request() },
        (0..60).map(|k| user(&format!("u{k}"), Some(60), None)).collect(),
        Vec::new(),
        ZkAppPage {
            total_counts: vec![Some(5); 5],
            blocks: vec![zkapps(&["z1", "z2", "z3"]), zkapps(&["z4", "z5"])],
        },
    );
    assert_eq!(pages, vec![(0, 100), (0, 40), (0, 40)]);
    assert_eq!(response.transactions.len(), 65);
    assert_eq!(response.transactions[64].transaction.transaction_identifier.hash, "z5");
    assert_eq!(response.total_count, 65);
    assert_eq!(response.next_offset, None);
}

#[test]
fn internal_commands_can_fill_the_page() {
    let (pages, response) = search(
        SearchTransactionsRequest { limit: Some(3), ..request() },
        vec![user("u1", Some(1), None)],
        vec![internal("i1", Some(2)), internal("i2", Some(2))],
        ZkAppPage { total_counts: vec![Some(4)], blocks: vec![zkapps(&["z1"])] },
    );
    assert_eq!(pages, vec![(0, 3), (0, 2), (0, 1)]);
    assert_eq!(response.transactions.len(), 3);
    assert_eq!(response.total_count, 7);
    assert_eq!(response.next_offset, Some(3));
}

#[test]
fn search_without_matches() {
    let (pages, response) = search(
        SearchTransactionsRequest { limit: Some(0), ..request() },
        Vec::new(),
        Vec::new(),
        ZkAppPage { total_counts: Vec::new(), blocks: Vec::new() },
    );
    assert_eq!(pages, vec![(0, 0), (0, 1), (0, 1)]);
    assert_eq!(response.transactions.len(), 0);
    assert_eq!(response.total_count, 0);
    assert_eq!(response.next_offset, None);
}

#[test]
fn sums_over_counts_that_do_not_fit_are_told() {
    let generators = TransactionGenerators {
        operations_user_command: |_: &UserCommandMetadata| Vec::new(),
        transaction_metadata: |_: &UserCommandMetadata| None,
        internal_command_transaction_identifier: |_: &InternalCommandType, _: i32, _: i32, h: &String| {
            h.clone()
        },
        operations_internal_command: |_: &InternalCommandMetadata| Vec::new(),
    };
    let req = SearchTransactionsRequest { offset: Some(i64::MAX), ..request() };
    let first = UserSearch::new(params(&req), &req);
    let second = first.found(&vec![user("u", Some(i64::MAX), None)], &generators);
    assert!(!second.check_fits(&vec![internal("i", Some(1))]));
    assert!(second.check_fits(&vec![internal("i", Some(0))]));
    let third = second.found(&Vec::new(), &generators);
    assert!(!third.check_fits(&ZkAppPage { total_counts: Vec::new(), blocks: Vec::new() }));
}

#[test]
fn times_of_rows() {
    let found = |timestamp: Option<i64>| BlockTransaction {
        block_identifier: BlockIdentifier::new(1, "3N".to_string()),
        transaction: Transaction {
            transaction_identifier: TransactionIdentifier { hash: "5J".to_string() },
            operations: Vec::new(),
            related_transactions: None,
            metadata: None,
        },
        timestamp,
    };
    let rows = || {
        vec![
            (found(None), Some("12".to_string())),
            (found(Some(1)), Some("no number".to_string())),
            (found(Some(1)), None),
        ]
    };
    let times = |include_timestamp: bool| {
        map_to_block_transactions(rows(), include_timestamp)
            .iter()
            .map(|t| t.timestamp)
            .collect::<Vec<Option<i64>>>()
    };
    assert_eq!(times(true), vec![Some(12), Some(0), None]);
    assert_eq!(times(false), vec![None, None, None]);
}

#[test]
fn zkapp_rows_lack_what_their_block_lacks() {
    let block = || ZkAppBlock {
        block_index: None,
        block_hash: None,
        timestamp: None,
        ..zkapps(&["z"])
    };
    let found = zkapp_commands_to_block_transactions(vec![block()], true);
    assert_eq!(found[0].block_identifier.index, 0);
    assert_eq!(found[0].block_identifier.hash, "");
    assert_eq!(found[0].timestamp, Some(0));
    assert_eq!(zkapp_commands_to_block_transactions(vec![block()], false)[0].timestamp, None);
}
