use coinbase_mesh::models::Operation;
use dashmap::DashMap;
use mina_mesh::api::indexer_search::{IndexerLookup, IndexerSearch, SearchRoute};
use mina_mesh::commands::TransactionGenerators;
use mina_mesh::mesh::{MinaMesh, NodeBackend};
use mina_mesh::types::{
    AccountIdentifier, BlockIdentifier, InternalCommandMetadata, InternalCommandType, IxAccount,
    IxBlock, IxBlockTransactions, IxBlockchainState, IxProtocolState, IxSearchBlock, IxSearchTxn,
    IxUserCommand, PartialBlockIdentifier, SearchTransactionsRequest,
    SearchTransactionsResponse, TransactionIdentifier, UserCommandMetadata,
};

fn request() -> SearchTransactionsRequest {
    SearchTransactionsRequest {
        max_block: None,
        offset: None,
        limit: None,
        transaction_identifier: None,
        account_identifier: None,
        status: None,
        address: Some("B62address".to_string()),
        success: None,
        include_timestamp: None,
    }
}

fn search(req: &SearchTransactionsRequest) -> IndexerSearch {
    let mesh = MinaMesh {
        node: NodeBackend::Absent,
        network_id: "mina:devnet".to_string(),
        pg_pool: None,
        genesis_block_identifier: BlockIdentifier::new(1, "genesis".to_string()),
        search_tx_optimized: false,
        cache: DashMap::new(),
        cache_ttl: 300,
        cache_tx_size: 100,
        indexer: Some("http://indexer".to_string()),
    };
    match mesh.checked_search_transactions(req) {
        Some(Ok(SearchRoute::Indexer(search))) => search,
        other => panic!("{other:?}"),
    }
}

fn row(height: u32, hash: &str, is_applied: bool) -> IxSearchTxn {
    IxSearchTxn {
        command: IxUserCommand {
            kind: "PAYMENT".to_string(),
            amount: 3,
            nonce: 1,
            fee: 2,
            memo: String::new(),
            hash: hash.to_string(),
            from: "sender".to_string(),
            to: Some("receiver".to_string()),
            is_applied,
            failure_reason: None,
            receiver_account_creation_fee_paid: false,
        },
        block_height: height,
        block: IxSearchBlock {
            state_hash: format!("3N{height}"),
            date_time: "2024-01-01T00:00:00Z".to_string(),
        },
    }
}

fn answer(
    req: &SearchTransactionsRequest,
    outgoing: Vec<IxSearchTxn>,
    incoming: Vec<IxSearchTxn>,
) -> SearchTransactionsResponse {
    let generators = TransactionGenerators {
        operations_user_command: |m: &UserCommandMetadata| {
            vec![Operation { status: m.amount.clone(), ..Operation::default() }]
        },
        transaction_metadata: |m: &UserCommandMetadata| {
            Some(serde_json::Value::String(m.receiver.clone()))
        },
        internal_command_transaction_identifier: |_: &InternalCommandType, _: i32, _: i32, h: &String| {
            h.clone()
        },
        operations_internal_command: |_: &InternalCommandMetadata| Vec::new(),
    };
    search(req).found(outgoing, incoming, &generators)
}

fn hashes(response: &SearchTransactionsResponse) -> Vec<&str> {
    response
        .transactions
        .iter()
        .map(|t| t.transaction.transaction_identifier.hash.as_str())
        .collect()
}

#[test]
fn hash_is_looked_up_first() {
    let req = SearchTransactionsRequest {
        transaction_identifier: Some(TransactionIdentifier { hash: "5J".to_string() }),
        ..request()
    };
    assert!(matches!(search(&req).lookup(), IndexerLookup::Transaction(h) if h == "5J"));
}

#[test]
fn account_is_looked_up_with_room_to_spare() {
    let req = SearchTransactionsRequest {
        account_identifier: Some(AccountIdentifier {
            address: "B62account".to_string(),
            metadata: None,
        }),
        offset: Some(7),
        limit: Some(20),
        max_block: Some(1000),
        ..request()
    };
    match search(&req).lookup() {
        IndexerLookup::Account { public_key, max_height, cap } => {
            assert_eq!(public_key, "B62account");
            assert_eq!(max_height, Some(1000));
            assert_eq!(cap, 77);
        }
        other => panic!("{other:?}"),
    }
}

#[test]
fn address_stands_in_for_the_account() {
    let req = SearchTransactionsRequest { limit: Some(-5), offset: Some(-5), ..request() };
    match search(&req).lookup() {
        IndexerLookup::Account { public_key, max_height, cap } => {
            assert_eq!(public_key, "B62address");
            assert_eq!(max_height, None);
            assert_eq!(cap, 51);
        }
        other => panic!("{other:?}"),
    }
    match search(&request()).lookup() {
        IndexerLookup::Account { cap, .. } => assert_eq!(cap, 150),
        other => panic!("{other:?}"),
    }
}

#[test]
fn heights_are_handed_over_in_thirty_two_bits() {
    for (max_block, height) in
        [(4_294_967_295i64, u32::MAX), (4_294_967_296, 0), (4_294_967_301, 5), (-1, u32::MAX)]
    {
        let req = SearchTransactionsRequest { max_block: Some(max_block), ..request() };
        match search(&req).lookup() {
            IndexerLookup::Account { max_height, .. } => assert_eq!(max_height, Some(height)),
            other => panic!("{other:?}"),
        }
    }
}

#[test]
fn nothing_to_look_up() {
    let req = SearchTransactionsRequest { address: None, ..request() };
    assert!(matches!(search(&req).lookup(), IndexerLookup::Nothing));
    let response = answer(&req, Vec::new(), Vec::new());
    assert_eq!((response.total_count, response.next_offset), (0, None));
    assert_eq!(response.transactions.len(), 0);
}

#[test]
fn number_of_rows_is_checked() {
    let req = SearchTransactionsRequest {
        offset: Some(i64::MAX),
        limit: Some(i64::MAX),
        ..request()
    };
    assert!(!search(&req).check_cap());
    assert!(search(&SearchTransactionsRequest { address: None, ..req }).check_cap());
    assert!(search(&request()).check_cap());
}

#[test]
fn rows_are_distinct_and_the_newest_first() {
    let response = answer(
        &request(),
        vec![row(5, "b", true), row(5, "a", true), row(4, "c", true)],
        vec![row(6, "b", true), row(9, "d", true), row(5, "a", false)],
    );
    assert_eq!(hashes(&response), vec!["d", "a", "b", "c"]);
    let heights: Vec<i64> =
        response.transactions.iter().map(|t| t.block_identifier.index).collect();
    assert_eq!(heights, vec![9, 5, 5, 4]);
    assert_eq!(response.total_count, 4);
    assert_eq!(response.next_offset, None);
}

#[test]
fn rows_present_their_commands() {
    let response = answer(&request(), vec![row(5, "b", true)], Vec::new());
    let found = &response.transactions[0];
    assert_eq!(found.block_identifier.hash, "3N5");
    assert_eq!(found.transaction.operations[0].status.as_deref(), Some("3"));
    assert_eq!(
        found.transaction.metadata,
        Some(serde_json::Value::String("receiver".to_string()))
    );
    assert_eq!(found.transaction.related_transactions, None);
    assert_eq!(found.timestamp, None);
}

#[test]
fn both_status_filters_apply() {
    let rows = || vec![row(3, "a", true), row(2, "b", false), row(1, "c", true)];
    let filtered = |status: Option<&str>, success: Option<bool>| {
        let req = SearchTransactionsRequest {
            status: status.map(str::to_string),
            success,
            ..request()
        };
        let response = answer(&req, rows(), Vec::new());
        assert_eq!(response.total_count, response.transactions.len() as i64);
        hashes(&response).concat()
    };
    assert_eq!(filtered(None, None), "abc");
    assert_eq!(filtered(Some("applied"), None), "ac");
    assert_eq!(filtered(Some("failed"), None), "b");
    assert_eq!(filtered(None, Some(true)), "ac");
    assert_eq!(filtered(None, Some(false)), "b");
    assert_eq!(filtered(Some("applied"), Some(true)), "ac");
    assert_eq!(filtered(Some("applied"), Some(false)), "");
}

#[test]
fn pages_follow_each_other() {
    let rows = || (0..5).map(|k| row(10 - k, "abcde".get(k as usize..).unwrap(), true)).collect();
    let page = |offset: i64, limit: i64| {
        let req = SearchTransactionsRequest {
            offset: Some(offset),
            limit: Some(limit),
            ..request()
        };
        let response = answer(&req, rows(), Vec::new());
        assert_eq!(response.total_count, 5);
        (hashes(&response).iter().map(|h| h.to_string()).collect::<Vec<String>>(), response.next_offset)
    };
    let (first, next) = page(0, 2);
    assert_eq!((first, next), (vec!["abcde".to_string(), "bcde".to_string()], Some(2)));
    let (second, next) = page(2, 2);
    assert_eq!((second, next), (vec!["cde".to_string(), "de".to_string()], Some(4)));
    let (third, next) = page(4, 2);
    assert_eq!((third, next), (vec!["e".to_string()], None));
    assert_eq!(page(5, 2), (Vec::new(), None));
    assert_eq!(page(9, 2), (Vec::new(), None));
    assert_eq!(page(0, 0), (Vec::new(), Some(0)));
    assert_eq!(page(0, 5).1, None);
}

#[test]
fn times_are_given_where_they_are_numbers() {
    let mut numeric = row(5, "a", true);
    numeric.block.date_time = "1700000000000".to_string();
    let req = SearchTransactionsRequest { include_timestamp: Some(true), ..request() };
    let response = answer(&req, vec![numeric, row(4, "b", true)], Vec::new());
    let times: Vec<Option<i64>> = response.transactions.iter().map(|t| t.timestamp).collect();
    assert_eq!(times, vec![Some(1_700_000_000_000), None]);
}

#[test]
fn transaction_that_was_looked_up() {
    assert_eq!(IndexerSearch::transaction_rows(None).len(), 0);
    let rows = IndexerSearch::transaction_rows(Some(row(5, "a", true)));
    assert_eq!(rows.len(), 1);
    let response = answer(&request(), rows, Vec::new());
    assert_eq!(hashes(&response), vec!["a"]);
}

#[test]
fn block_and_search_report_alike() {
    let generators = TransactionGenerators {
        operations_user_command: |m: &UserCommandMetadata| {
            vec![Operation { status: m.amount.clone(), ..Operation::default() }]
        },
        transaction_metadata: |m: &UserCommandMetadata| {
            m.memo.clone().map(serde_json::Value::String)
        },
        internal_command_transaction_identifier: |_: &InternalCommandType, _: i32, _: i32, h: &String| {
            h.clone()
        },
        operations_internal_command: |_: &InternalCommandMetadata| Vec::new(),
    };
    let ix = IxBlock {
        block_height: 5,
        state_hash: "3N5".to_string(),
        protocol_state: IxProtocolState {
            previous_state_hash: "3N4".to_string(),
            blockchain_state: IxBlockchainState { utc_date: "17".to_string() },
        },
        transactions: IxBlockTransactions {
            user_commands: vec![row(5, "a", true).command],
            coinbase: "0".to_string(),
            coinbase_receiver: None,
            coinbase_receiver_account_creation_fee_paid: false,
            fee_transfer: Vec::new(),
        },
        snark_jobs: Vec::new(),
        creator_account: IxAccount { public_key: "B62".to_string() },
    };
    let at_tip = PartialBlockIdentifier { index: None, hash: None };
    let block = generators.block_from_indexer(Some(ix), &at_tip).unwrap().block.unwrap();
    for include_timestamp in [false, true] {
        let found =
            generators.ix_search_to_block_transaction(&row(5, "a", true), include_timestamp);
        assert_eq!(format!("{:?}", found.transaction), format!("{:?}", block.transactions[0]));
    }
}

#[test]
fn found_rows_can_be_counted() {
    assert!(search(&request()).check_fits(&vec![row(5, "a", true)], &Vec::new()));
}
