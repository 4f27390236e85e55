use coinbase_mesh::models::Operation;
use mina_mesh::commands::{kind_command_type, upper_kind_command_type, TransactionGenerators};
use mina_mesh::types::{
    InternalCommandMetadata, InternalCommandType, IxUserCommand, TransactionStatus,
    UserCommandMetadata, UserCommandType,
};

fn operation(status: String) -> Operation {
    Operation { status: Some(status), ..Operation::default() }
}

fn ix_command(kind: &str) -> IxUserCommand {
    IxUserCommand {
        kind: kind.to_string(),
        amount: 12_000_000_000,
        nonce: u32::MAX,
        fee: 10_000_000,
        memo: "memo".to_string(),
        hash: "hash".to_string(),
        from: "sender".to_string(),
        to: Some("receiver".to_string()),
        is_applied: true,
        failure_reason: None,
        receiver_account_creation_fee_paid: true,
    }
}

#[test]
fn case_of_a_kind_does_not_matter() {
    assert_eq!(kind_command_type("stake_delegation"), UserCommandType::Delegation);
    assert_eq!(kind_command_type("STAKE_DELEGATION"), UserCommandType::Delegation);
    assert_eq!(kind_command_type("Delegate"), UserCommandType::Delegation);
    assert_eq!(kind_command_type("payment"), UserCommandType::Payment);
    assert_eq!(kind_command_type(""), UserCommandType::Payment);
    assert_eq!(upper_kind_command_type("DELEGATION"), UserCommandType::Delegation);
    assert_eq!(upper_kind_command_type("delegation"), UserCommandType::Payment);
}

#[test]
fn payment_of_the_indexer_in_the_shape_of_the_archive() {
    let meta = ix_command("PAYMENT").to_metadata();
    assert_eq!(meta.command_type, UserCommandType::Payment);
    assert_eq!(meta.nonce, 4_294_967_295);
    assert_eq!(meta.amount.as_deref(), Some("12000000000"));
    assert_eq!(meta.fee.as_deref(), Some("10000000"));
    assert_eq!(meta.valid_until, None);
    assert_eq!(meta.memo.as_deref(), Some("memo"));
    assert_eq!(meta.hash, "hash");
    assert_eq!(meta.fee_payer, "sender");
    assert_eq!(meta.source, "sender");
    assert_eq!(meta.receiver, "receiver");
    assert_eq!(meta.status, TransactionStatus::Applied);
    assert_eq!(meta.failure_reason, None);
    assert_eq!(meta.creation_fee.as_deref(), Some("1000000000"));
}

#[test]
fn failed_delegation_without_receiver() {
    let command = IxUserCommand {
        to: None,
        is_applied: false,
        failure_reason: Some("Receiver_not_present".to_string()),
        receiver_account_creation_fee_paid: false,
        ..ix_command("stake_delegation")
    };
    let meta = command.to_metadata();
    assert_eq!(meta.command_type, UserCommandType::Delegation);
    assert_eq!(meta.amount, None);
    assert_eq!(meta.receiver, "");
    assert_eq!(meta.status, TransactionStatus::Failed);
    assert_eq!(meta.failure_reason.as_deref(), Some("Receiver_not_present"));
    assert_eq!(meta.creation_fee, None);
}

#[test]
fn type_can_be_given() {
    let command = ix_command("whatever");
    assert_eq!(command.to_metadata_as(UserCommandType::Delegation).amount, None);
    assert_eq!(
        command.to_metadata_as(UserCommandType::Payment).amount.as_deref(),
        Some("12000000000")
    );
}

#[test]
fn commands_are_presented_by_the_generators() {
    let generators = TransactionGenerators {
        operations_user_command: |m: &UserCommandMetadata| vec![operation(m.hash.clone())],
        transaction_metadata: |m: &UserCommandMetadata| {
            Some(serde_json::Value::String(m.receiver.clone()))
        },
        internal_command_transaction_identifier: |t: &InternalCommandType, s: i32, u: i32, h: &String| {
            format!("{t:?}:{s}:{u}:{h}")
        },
        operations_internal_command: |m: &InternalCommandMetadata| {
            vec![operation(m.receiver.clone()), operation(m.fee.clone().unwrap())]
        },
    };
    let user = generators.user_command_transaction(&ix_command("payment").to_metadata());
    assert_eq!(user.transaction_identifier.hash, "hash");
    assert_eq!(user.operations, vec![operation("hash".to_string())]);
    assert_eq!(user.metadata, Some(serde_json::Value::String("receiver".to_string())));
    assert_eq!(user.related_transactions, None);

    let internal = generators.internal_command_transaction(&InternalCommandMetadata {
        command_type: InternalCommandType::FeeTransfer,
        receiver: "prover".to_string(),
        fee: Some("5".to_string()),
        hash: "block".to_string(),
        creation_fee: None,
        sequence_no: 3,
        secondary_sequence_no: 1,
        status: TransactionStatus::Applied,
        coinbase_receiver: None,
    });
    assert_eq!(internal.transaction_identifier.hash, "FeeTransfer:3:1:block");
    assert_eq!(
        internal.operations,
        vec![operation("prover".to_string()), operation("5".to_string())]
    );
    assert_eq!(internal.metadata, None);
    assert_eq!(internal.related_transactions, None);
}
