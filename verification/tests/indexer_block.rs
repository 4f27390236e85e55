use coinbase_mesh::models::Operation;
use mina_mesh::commands::TransactionGenerators;
use mina_mesh::error::MinaMeshError;
use mina_mesh::text::ParseIntError;
use mina_mesh::types::{
    BlockResponse, InternalCommandMetadata, InternalCommandType, IxAccount, IxBlock,
    IxBlockTransactions, IxBlockchainState, IxFeeTransfer, IxProtocolState, IxSnarkJob,
    IxUserCommand, PartialBlockIdentifier, TransactionStatus, UserCommandMetadata,
};

fn transfer(recipient: &str, fee: &str) -> IxFeeTransfer {
    IxFeeTransfer { recipient: recipient.to_string(), fee: fee.to_string() }
}

fn block(coinbase: &str, producer: Option<&str>, fees: Vec<IxFeeTransfer>, snarks: &[u64]) -> IxBlock {
    IxBlock {
        block_height: 12,
        state_hash: "3Nblock".to_string(),
        protocol_state: IxProtocolState {
            previous_state_hash: "3Nparent".to_string(),
            blockchain_state: IxBlockchainState { utc_date: "1700000000000".to_string() },
        },
        transactions: IxBlockTransactions {
            user_commands: Vec::new(),
            coinbase: coinbase.to_string(),
            coinbase_receiver: producer.map(str::to_string),
            coinbase_receiver_account_creation_fee_paid: false,
            fee_transfer: fees,
        },
        snark_jobs: snarks.iter().map(|fee| IxSnarkJob { fee: *fee }).collect(),
        creator_account: IxAccount { public_key: "B62creator".to_string() },
    }
}

fn credits(block: &IxBlock) -> Vec<(InternalCommandType, String, u64)> {
    assert!(block.check_sums());
    block
        .internal_command_metadata()
        .into_iter()
        .map(|m| (m.command_type, m.receiver, m.fee.unwrap().parse().unwrap()))
        .collect()
}

fn total(block: &IxBlock) -> u64 {
    credits(block).iter().map(|c| c.2).sum()
}

fn to(block: &IxBlock, account: &str) -> u64 {
    credits(block).iter().filter(|c| c.1 == account).map(|c| c.2).sum()
}

#[test]
fn snark_works_come_out_of_the_producers_fees_first() {
    let ix = block(
        "720",
        Some("producer"),
        vec![transfer("producer", "30"), transfer("prover", "40"), transfer("producer", "50")],
        &[25, 15],
    );
    assert_eq!(
        credits(&ix),
        vec![
            (InternalCommandType::Coinbase, "producer".to_string(), 720),
            (InternalCommandType::FeeTransfer, "prover".to_string(), 40),
            (InternalCommandType::FeeTransfer, "producer".to_string(), 40),
        ]
    );
}

#[test]
fn snark_works_come_out_of_the_coinbase_next() {
    let ix = block(
        "720",
        Some("producer"),
        vec![transfer("producer", "30"), transfer("prover", "100")],
        &[100],
    );
    assert_eq!(
        credits(&ix),
        vec![
            (InternalCommandType::Coinbase, "producer".to_string(), 650),
            (InternalCommandType::FeeTransfer, "prover".to_string(), 100),
        ]
    );
}

#[test]
fn snark_works_are_paid_exactly_once() {
    let ix = block(
        "720",
        Some("producer"),
        vec![transfer("producer", "30"), transfer("prover", "100"), transfer("other", "7")],
        &[60, 40],
    );
    assert_eq!(total(&ix) + 100, 720 + 30 + 100 + 7);
    assert_eq!(to(&ix, "producer") + 100, 720 + 30);
    assert_eq!(to(&ix, "prover"), 100);
    assert_eq!(to(&ix, "other"), 7);
}

#[test]
fn reward_does_not_go_below_zero() {
    let ix = block("10", Some("producer"), Vec::new(), &[20]);
    assert_eq!(credits(&ix), Vec::new());
}

#[test]
fn no_coinbase_without_a_reward_or_a_receiver() {
    assert_eq!(credits(&block("0", Some("producer"), Vec::new(), &[])), Vec::new());
    assert_eq!(credits(&block("720", None, Vec::new(), &[])), Vec::new());
    assert_eq!(credits(&block("no number", Some("producer"), Vec::new(), &[])), Vec::new());
    assert_eq!(
        credits(&block("720", None, vec![transfer("prover", "5")], &[5])),
        vec![(InternalCommandType::FeeTransfer, "prover".to_string(), 5)]
    );
}

#[test]
fn transfers_of_nothing_are_left_out() {
    let ix = block(
        "0",
        Some("producer"),
        vec![transfer("a", "0"), transfer("b", "x"), transfer("c", "1")],
        &[],
    );
    let commands = ix.internal_command_metadata();
    assert_eq!(commands.len(), 1);
    assert_eq!(commands[0].receiver, "c");
    assert_eq!(commands[0].sequence_no, 0);
}

#[test]
fn internal_commands_are_numbered_in_order() {
    let mut ix = block(
        "720",
        Some("producer"),
        vec![transfer("a", "1"), transfer("b", "0"), transfer("c", "3")],
        &[],
    );
    ix.transactions.coinbase_receiver_account_creation_fee_paid = true;
    let commands = ix.internal_command_metadata();
    assert_eq!(commands.iter().map(|c| c.sequence_no).collect::<Vec<i32>>(), vec![0, 1, 2]);
    for (k, command) in commands.iter().enumerate() {
        assert_eq!(command.secondary_sequence_no, 0);
        assert_eq!(command.hash, "3Nblock");
        assert_eq!(command.status, TransactionStatus::Applied);
        assert_eq!(command.coinbase_receiver.as_deref(), Some("producer"));
        assert_eq!(command.command_type == InternalCommandType::Coinbase, k == 0);
    }
    assert_eq!(commands[0].creation_fee.as_deref(), Some("1000000000"));
    assert_eq!(commands[1].creation_fee, None);
}

#[test]
fn sums_that_do_not_fit_are_told() {
    assert!(!block("0", Some("p"), Vec::new(), &[u64::MAX, 1]).check_sums());
    assert!(block("0", Some("p"), Vec::new(), &[u64::MAX]).check_sums());
    let fees = vec![transfer("p", "18446744073709551615"), transfer("p", "1")];
    assert!(!block("0", Some("p"), fees, &[]).check_sums());
    let fees = vec![transfer("q", "18446744073709551615"), transfer("q", "1")];
    assert!(block("0", Some("p"), fees, &[]).check_sums());
}

fn operation(status: &str) -> Operation {
    Operation { status: Some(status.to_string()), ..Operation::default() }
}

fn answer(found: Option<IxBlock>, partial: &PartialBlockIdentifier) -> Result<BlockResponse, MinaMeshError> {
    let generators = TransactionGenerators {
        operations_user_command: |m: &UserCommandMetadata| vec![operation(&m.source)],
        transaction_metadata: |m: &UserCommandMetadata| {
            m.memo.clone().map(serde_json::Value::String)
        },
        internal_command_transaction_identifier: |t: &InternalCommandType, s: i32, u: i32, h: &String| {
            format!("{t:?}:{s}:{u}:{h}")
        },
        operations_internal_command: |m: &InternalCommandMetadata| vec![operation(&m.receiver)],
    };
    generators.block_from_indexer(found, partial)
}

fn at_tip() -> PartialBlockIdentifier {
    PartialBlockIdentifier { index: None, hash: None }
}

#[test]
fn block_of_the_indexer() {
    let mut ix = block("720", Some("producer"), vec![transfer("prover", "5")], &[5]);
    ix.transactions.user_commands.push(IxUserCommand {
        kind: "payment".to_string(),
        amount: 1,
        nonce: 0,
        fee: 1,
        memo: "hello".to_string(),
        hash: "5Juser".to_string(),
        from: "sender".to_string(),
        to: Some("receiver".to_string()),
        is_applied: true,
        failure_reason: None,
        receiver_account_creation_fee_paid: false,
    });
    let response = answer(Some(ix), &at_tip()).unwrap();
    assert!(response.other_transactions.is_none());
    let block = response.block.unwrap();
    assert_eq!((block.block_identifier.index, block.block_identifier.hash.as_str()), (12, "3Nblock"));
    assert_eq!(
        (block.parent_block_identifier.index, block.parent_block_identifier.hash.as_str()),
        (11, "3Nparent")
    );
    assert_eq!(block.timestamp, 1_700_000_000_000);
    assert_eq!(block.metadata.unwrap().to_string(), "{\"creator\":\"B62creator\"}");
    let hashes: Vec<&str> =
        block.transactions.iter().map(|t| t.transaction_identifier.hash.as_str()).collect();
    assert_eq!(hashes, vec!["5Juser", "Coinbase:0:0:3Nblock", "FeeTransfer:1:0:3Nblock"]);
    assert_eq!(block.transactions[0].operations, vec![operation("sender")]);
    assert_eq!(
        block.transactions[0].metadata,
        Some(serde_json::Value::String("hello".to_string()))
    );
    assert_eq!(block.transactions[1].operations, vec![operation("producer")]);
    assert_eq!(block.transactions[2].operations, vec![operation("prover")]);
}

#[test]
fn genesis_block_is_its_own_parent() {
    for height in [0, 1] {
        let mut ix = block("0", None, Vec::new(), &[]);
        ix.block_height = height;
        let block = answer(Some(ix), &at_tip()).unwrap().block.unwrap();
        assert_eq!(block.parent_block_identifier.index, i64::from(height));
        assert_eq!(block.parent_block_identifier.hash, "3Nblock");
    }
}

#[test]
fn unknown_block_is_missing() {
    let partial = PartialBlockIdentifier { index: Some(99), hash: Some("3Nx".to_string()) };
    assert!(matches!(
        answer(None, &partial),
        Err(MinaMeshError::BlockMissing(Some(99), Some(h))) if h == "3Nx"
    ));
}

#[test]
fn block_needs_a_time() {
    let mut ix = block("0", None, Vec::new(), &[]);
    ix.protocol_state.blockchain_state.utc_date = "2024-01-01T00:00:00Z".to_string();
    assert!(matches!(
        answer(Some(ix), &at_tip()),
        Err(MinaMeshError::ParseInt(ParseIntError::InvalidDigit))
    ));
}

#[test]
fn block_without_a_time_is_refused_whatever_its_sums() {
    let mut ix = block("0", Some("p"), Vec::new(), &[u64::MAX, 1]);
    assert!(!ix.check_can_be_given());
    ix.protocol_state.blockchain_state.utc_date = String::new();
    assert!(ix.check_can_be_given());
    assert!(matches!(
        answer(Some(ix), &at_tip()),
        Err(MinaMeshError::ParseInt(ParseIntError::Empty))
    ));
    assert!(block("0", Some("p"), Vec::new(), &[1]).check_can_be_given());
}

#[test]
fn coinbase_pays_only_when_the_fees_are_used_up() {
    let ix = block(
        "720",
        Some("producer"),
        vec![transfer("producer", "10"), transfer("producer", "20")],
        &[31],
    );
    assert_eq!(
        credits(&ix),
        vec![(InternalCommandType::Coinbase, "producer".to_string(), 719)]
    );
}
