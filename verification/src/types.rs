//! The records that pass through the server: the Rosetta models, the rows of the archive and the
//! records of the indexer.

use vstd::prelude::*;

verus! {

/// A Rosetta operation. The server hands operations through without looking into them.
#[verifier::external_type_specification]
#[verifier::external_body]
pub struct ExOperation(coinbase_mesh::models::Operation);

/// A Rosetta link between transactions. The server gives none.
#[verifier::external_type_specification]
#[verifier::external_body]
pub struct ExRelatedTransaction(coinbase_mesh::models::RelatedTransaction);

/// The kind of a user command.
#[derive(Clone, Copy, Debug, PartialEq, Eq, Structural)]
pub enum UserCommandType {
    /// Moves an amount to the receiver.
    Payment,
    /// Delegates the source's stake to the receiver.
    Delegation,
}

/// The kind of a command that the block producer adds to a block.
#[derive(Clone, Copy, Debug, PartialEq, Eq, Structural)]
pub enum InternalCommandType {
    /// The block reward.
    Coinbase,
    /// A fee that is credited to its receiver.
    FeeTransfer,
    /// A fee that is paid out of the coinbase.
    FeeTransferViaCoinbase,
}

/// Whether a command took effect.
#[derive(Clone, Copy, Debug, PartialEq, Eq, Structural)]
pub enum TransactionStatus {
    /// The command took effect.
    Applied,
    /// The command failed; its fee was paid.
    Failed,
}

/// Where a block stands with respect to the canonical chain.
#[derive(Clone, Copy, Debug, PartialEq, Eq, Structural)]
pub enum ChainStatus {
    /// On the canonical chain.
    Canonical,
    /// On a branch that lost.
    Orphaned,
    /// Too recent to tell.
    Pending,
}

/// The hash that names a transaction.
#[derive(Debug)]
pub struct TransactionIdentifier {
    pub hash: String,
}

/// The height and the state hash that name a block.
#[derive(Debug)]
pub struct BlockIdentifier {
    pub index: i64,
    pub hash: String,
}

/// What a `BlockIdentifier` says.
pub struct BlockIdentifierView {
    pub index: int,
    pub hash: Seq<char>,
}

impl View for BlockIdentifier {
    type V = BlockIdentifierView;

    open spec fn view(&self) -> BlockIdentifierView {
        BlockIdentifierView { index: self.index as int, hash: self.hash@ }
    }
}

/// A block that a request asks for, by height, by hash, by both, or, with neither, the best one.
#[derive(Debug)]
pub struct PartialBlockIdentifier {
    pub index: Option<i64>,
    pub hash: Option<String>,
}

/// An account, with the metadata that a request attaches to it.
#[derive(Debug)]
pub struct AccountIdentifier {
    pub address: String,
    pub metadata: Option<serde_json::Value>,
}

/// A transaction and its operations.
#[derive(Debug)]
pub struct Transaction {
    pub transaction_identifier: TransactionIdentifier,
    pub operations: Vec<coinbase_mesh::models::Operation>,
    pub related_transactions: Option<Vec<coinbase_mesh::models::RelatedTransaction>>,
    pub metadata: Option<serde_json::Value>,
}

/// A transaction and the block that holds it.
#[derive(Debug)]
pub struct BlockTransaction {
    pub block_identifier: BlockIdentifier,
    pub transaction: Transaction,
    pub timestamp: Option<i64>,
}

/// A block and its transactions.
#[derive(Debug)]
pub struct Block {
    pub block_identifier: BlockIdentifier,
    pub parent_block_identifier: BlockIdentifier,
    pub timestamp: i64,
    pub transactions: Vec<Transaction>,
    pub metadata: Option<serde_json::Value>,
}

/// The answer to a block request.
#[derive(Debug)]
pub struct BlockResponse {
    pub block: Option<Block>,
    pub other_transactions: Option<Vec<TransactionIdentifier>>,
}

/// The answer to a mempool request.
#[derive(Debug)]
pub struct MempoolResponse {
    pub transaction_identifiers: Vec<TransactionIdentifier>,
}

/// What a search request asks for.
#[derive(Debug)]
pub struct SearchTransactionsRequest {
    pub max_block: Option<i64>,
    pub offset: Option<i64>,
    pub limit: Option<i64>,
    pub transaction_identifier: Option<TransactionIdentifier>,
    pub account_identifier: Option<AccountIdentifier>,
    pub status: Option<String>,
    pub address: Option<String>,
    pub success: Option<bool>,
    pub include_timestamp: Option<bool>,
}

/// The answer to a search request.
#[derive(Debug)]
pub struct SearchTransactionsResponse {
    pub transactions: Vec<BlockTransaction>,
    pub total_count: i64,
    pub next_offset: Option<i64>,
}

/// A user command, as the archive stores it.
#[derive(Debug)]
pub struct UserCommandMetadata {
    pub command_type: UserCommandType,
    pub nonce: i64,
    pub amount: Option<String>,
    pub fee: Option<String>,
    pub valid_until: Option<i64>,
    pub memo: Option<String>,
    pub hash: String,
    pub fee_payer: String,
    pub source: String,
    pub receiver: String,
    pub status: TransactionStatus,
    pub failure_reason: Option<String>,
    pub creation_fee: Option<String>,
}

/// What a `UserCommandMetadata` says.
pub struct UserCommandView {
    pub command_type: UserCommandType,
    pub nonce: int,
    pub amount: Option<Seq<char>>,
    pub fee: Option<Seq<char>>,
    pub valid_until: Option<i64>,
    pub memo: Option<Seq<char>>,
    pub hash: Seq<char>,
    pub fee_payer: Seq<char>,
    pub source: Seq<char>,
    pub receiver: Seq<char>,
    pub status: TransactionStatus,
    pub failure_reason: Option<Seq<char>>,
    pub creation_fee: Option<Seq<char>>,
}

impl View for UserCommandMetadata {
    type V = UserCommandView;

    open spec fn view(&self) -> UserCommandView {
        UserCommandView {
            command_type: self.command_type,
            nonce: self.nonce as int,
            amount: self.amount.deep_view(),
            fee: self.fee.deep_view(),
            valid_until: self.valid_until,
            memo: self.memo.deep_view(),
            hash: self.hash@,
            fee_payer: self.fee_payer@,
            source: self.source@,
            receiver: self.receiver@,
            status: self.status,
            failure_reason: self.failure_reason.deep_view(),
            creation_fee: self.creation_fee.deep_view(),
        }
    }
}

/// An internal command, as the archive stores it.
#[derive(Debug)]
pub struct InternalCommandMetadata {
    pub command_type: InternalCommandType,
    pub receiver: String,
    pub fee: Option<String>,
    pub hash: String,
    pub creation_fee: Option<String>,
    pub sequence_no: i32,
    pub secondary_sequence_no: i32,
    pub status: TransactionStatus,
    pub coinbase_receiver: Option<String>,
}

/// What an `InternalCommandMetadata` says.
pub struct InternalCommandView {
    pub command_type: InternalCommandType,
    pub receiver: Seq<char>,
    pub fee: Option<Seq<char>>,
    pub hash: Seq<char>,
    pub creation_fee: Option<Seq<char>>,
    pub sequence_no: int,
    pub secondary_sequence_no: int,
    pub status: TransactionStatus,
    pub coinbase_receiver: Option<Seq<char>>,
}

impl View for InternalCommandMetadata {
    type V = InternalCommandView;

    open spec fn view(&self) -> InternalCommandView {
        InternalCommandView {
            command_type: self.command_type,
            receiver: self.receiver@,
            fee: self.fee.deep_view(),
            hash: self.hash@,
            creation_fee: self.creation_fee.deep_view(),
            sequence_no: self.sequence_no as int,
            secondary_sequence_no: self.secondary_sequence_no as int,
            status: self.status,
            coinbase_receiver: self.coinbase_receiver.deep_view(),
        }
    }
}

/// A user command that a search found, and its block.
#[derive(Debug)]
pub struct UserCommand {
    pub command: UserCommandMetadata,
    pub height: Option<i64>,
    pub state_hash: Option<String>,
    pub timestamp: Option<String>,
    /// How many user commands the search matches in all.
    pub total_count: Option<i64>,
}

/// An internal command that a search found, and its block.
#[derive(Debug)]
pub struct InternalCommand {
    pub command: InternalCommandMetadata,
    pub height: Option<i64>,
    pub state_hash: Option<String>,
    pub timestamp: Option<String>,
    /// How many internal commands the search matches in all.
    pub total_count: Option<i64>,
}

/// The zkApp transactions of one block.
#[derive(Debug)]
pub struct ZkAppBlock {
    pub block_index: Option<i64>,
    pub block_hash: Option<String>,
    pub timestamp: Option<String>,
    pub transactions: Vec<ZkAppTransaction>,
}

/// A zkApp transaction: its hash, and the operations of all its commands.
#[derive(Debug)]
pub struct ZkAppTransaction {
    pub hash: String,
    pub operations: Vec<coinbase_mesh::models::Operation>,
}

/// A block, as the indexer tells it.
#[derive(Debug)]
pub struct IxBlock {
    pub block_height: u32,
    pub state_hash: String,
    pub protocol_state: IxProtocolState,
    pub transactions: IxBlockTransactions,
    pub snark_jobs: Vec<IxSnarkJob>,
    pub creator_account: IxAccount,
}

/// The protocol state of an indexer block.
#[derive(Debug)]
pub struct IxProtocolState {
    pub previous_state_hash: String,
    pub blockchain_state: IxBlockchainState,
}

/// The blockchain state of an indexer block.
#[derive(Debug)]
pub struct IxBlockchainState {
    /// Milliseconds since the Unix epoch, in decimal.
    pub utc_date: String,
}

/// The commands of an indexer block.
#[derive(Debug)]
pub struct IxBlockTransactions {
    pub user_commands: Vec<IxUserCommand>,
    /// The block reward in nanomina, in decimal.
    pub coinbase: String,
    pub coinbase_receiver: Option<String>,
    pub coinbase_receiver_account_creation_fee_paid: bool,
    pub fee_transfer: Vec<IxFeeTransfer>,
}

/// A fee transfer of an indexer block.
#[derive(Debug)]
pub struct IxFeeTransfer {
    pub recipient: String,
    /// Nanomina, in decimal.
    pub fee: String,
}

/// A SNARK work of an indexer block.
#[derive(Debug)]
pub struct IxSnarkJob {
    /// What the prover is paid, in nanomina.
    pub fee: u64,
}

/// An account of an indexer block.
#[derive(Debug)]
pub struct IxAccount {
    pub public_key: String,
}

/// A user command, as the indexer tells it.
#[derive(Debug)]
pub struct IxUserCommand {
    pub kind: String,
    pub amount: u64,
    pub nonce: u32,
    pub fee: u64,
    pub memo: String,
    pub hash: String,
    pub from: String,
    pub to: Option<String>,
    pub is_applied: bool,
    pub failure_reason: Option<String>,
    pub receiver_account_creation_fee_paid: bool,
}

/// A user command that the indexer found, and its block.
#[derive(Debug)]
pub struct IxSearchTxn {
    pub command: IxUserCommand,
    pub block_height: u32,
    pub block: IxSearchBlock,
}

/// The block of a user command that the indexer found.
#[derive(Debug)]
pub struct IxSearchBlock {
    pub state_hash: String,
    pub date_time: String,
}

/// Copies an optional text.
pub(crate) fn copy_text(text: &Option<String>) -> (copy: Option<String>)
    ensures
        copy == *text,
{
    match text {
        Some(t) => Some(t.clone()),
        None => None,
    }
}

/// Copies an optional text, or gives the empty one.
pub(crate) fn text_or_empty(text: &Option<String>) -> (copy: String)
    ensures
        copy@ == or_empty(text.deep_view()),
{
    match text {
        Some(t) => t.clone(),
        None => String::new(),
    }
}

/// The text, or the empty one.
pub open spec fn or_empty(text: Option<Seq<char>>) -> Seq<char> {
    match text {
        Some(t) => t,
        None => Seq::empty(),
    }
}

impl BlockIdentifier {
    /// Names a block by its height and its state hash.
    pub fn new(index: i64, hash: String) -> (id: BlockIdentifier)
        ensures
            id.index == index,
            id.hash == hash,
    {
        BlockIdentifier { index, hash }
    }

    /// Copies the identifier.
    pub fn copy(&self) -> (id: BlockIdentifier)
        ensures
            id == *self,
    {
        BlockIdentifier { index: self.index, hash: self.hash.clone() }
    }
}

/// A `UserCommandMetadata` says what its fields hold, each of them.
pub proof fn user_command_says_its_fields(m: UserCommandMetadata)
    ensures
        m@.command_type == m.command_type,
        m@.nonce == m.nonce,
        m@.amount == text_of(m.amount),
        m@.fee == text_of(m.fee),
        m@.valid_until == m.valid_until,
        m@.memo == text_of(m.memo),
        m@.hash == m.hash@,
        m@.fee_payer == m.fee_payer@,
        m@.source == m.source@,
        m@.receiver == m.receiver@,
        m@.status == m.status,
        m@.failure_reason == text_of(m.failure_reason),
        m@.creation_fee == text_of(m.creation_fee),
{
}

/// An `InternalCommandMetadata` says what its fields hold, each of them.
pub proof fn internal_command_says_its_fields(m: InternalCommandMetadata)
    ensures
        m@.command_type == m.command_type,
        m@.receiver == m.receiver@,
        m@.fee == text_of(m.fee),
        m@.hash == m.hash@,
        m@.creation_fee == text_of(m.creation_fee),
        m@.sequence_no == m.sequence_no,
        m@.secondary_sequence_no == m.secondary_sequence_no,
        m@.status == m.status,
        m@.coinbase_receiver == text_of(m.coinbase_receiver),
{
}

/// A `BlockIdentifier` says its height and its hash.
pub proof fn block_identifier_says_its_fields(id: BlockIdentifier)
    ensures
        id@.index == id.index,
        id@.hash == id.hash@,
{
}

/// What an optional text reads.
pub open spec fn text_of(text: Option<String>) -> Option<Seq<char>> {
    match text {
        Some(t) => Some(t@),
        None => None,
    }
}

/// A text stands for itself, and nothing but the lack of one for the empty text.
pub proof fn lacking_text_is_empty(t: String, text: Seq<char>)
    ensures
        text_of(Some(t)) == Some(t@),
        text_of(None) is None,
        or_empty(Some(text)) == text,
        or_empty(None).len() == 0,
{
}

} // verus!
