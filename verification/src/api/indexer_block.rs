//! A block that the trustless indexer serves.

use vstd::prelude::*;

use crate::commands::{creation_fee, TransactionGenerators};
use crate::error::MinaMeshError;
use crate::json::json_object;
use crate::text::{decimal_u64, parse_i64, parse_u64_or_zero};
use crate::types::{
    copy_text, Block, BlockIdentifier, BlockIdentifierView, BlockResponse, InternalCommandMetadata,
    InternalCommandType, InternalCommandView, IxBlock, IxFeeTransfer, IxSnarkJob,
    PartialBlockIdentifier, Transaction, TransactionStatus, UserCommandMetadata,
};

verus! {

/// The smaller of two numbers.
pub open spec fn smaller(a: nat, b: nat) -> nat {
    if a <= b {
        a
    } else {
        b
    }
}

/// What the provers of these works are paid in all.
pub open spec fn snark_fees(jobs: Seq<IxSnarkJob>) -> nat
    decreases jobs.len(),
{
    if jobs.len() == 0 {
        0
    } else {
        snark_fees(jobs.drop_last()) + jobs.last().fee as nat
    }
}

/// What a fee transfer moves. A fee that is no decimal number counts as zero.
pub open spec fn transfer_fee(transfer: IxFeeTransfer) -> nat {
    crate::text::u64_or_zero(transfer.fee@)
}

/// What these transfers move in all.
pub open spec fn transfer_fees(transfers: Seq<IxFeeTransfer>) -> nat
    decreases transfers.len(),
{
    if transfers.len() == 0 {
        0
    } else {
        transfer_fees(transfers.drop_last()) + transfer_fee(transfers.last())
    }
}

/// Whether a fee transfer goes to the block producer.
pub open spec fn goes_to(transfer: IxFeeTransfer, producer: Option<Seq<char>>) -> bool {
    producer == Some(transfer.recipient@)
}

/// What these transfers move to the block producer.
pub open spec fn producer_fees(transfers: Seq<IxFeeTransfer>, producer: Option<Seq<char>>) -> nat
    decreases transfers.len(),
{
    if transfers.len() == 0 {
        0
    } else {
        producer_fees(transfers.drop_last(), producer) + if goes_to(transfers.last(), producer) {
            transfer_fee(transfers.last())
        } else {
            0
        }
    }
}

impl IxBlock {
    /// The block producer: whoever receives the coinbase.
    pub open spec fn producer(self) -> Option<Seq<char>> {
        self.transactions.coinbase_receiver.deep_view()
    }

    /// What the block's SNARK works cost. The producer pays all of it.
    pub open spec fn snark_cost(self) -> nat {
        snark_fees(self.snark_jobs@)
    }

    /// The part of the SNARK cost that the producer pays out of its own fee transfers: as much as
    /// they hold.
    pub open spec fn snark_from_fees(self) -> nat {
        smaller(
            self.snark_cost(),
            producer_fees(self.transactions.fee_transfer@, self.producer()),
        )
    }

    /// The part of the SNARK cost that is left for the coinbase.
    pub open spec fn snark_from_coinbase(self) -> nat {
        (self.snark_cost() - self.snark_from_fees()) as nat
    }

    /// What has been withheld from the producer after the first `n` fee transfers.
    pub open spec fn withheld(self, n: int) -> nat {
        smaller(
            self.snark_from_fees(),
            producer_fees(self.transactions.fee_transfer@.take(n), self.producer()),
        )
    }

    /// What the fee transfer at `i` credits, net of what is withheld from it.
    pub open spec fn net_fee(self, i: int) -> nat {
        (transfer_fee(self.transactions.fee_transfer@[i]) - (self.withheld(i + 1) - self.withheld(
            i,
        ))) as nat
    }

    /// The block reward, net of the SNARK cost that is left for it, or zero if it does not cover
    /// that.
    pub open spec fn net_coinbase(self) -> nat {
        let reward = crate::text::u64_or_zero(self.transactions.coinbase@);
        if reward < self.snark_from_coinbase() {
            0
        } else {
            (reward - self.snark_from_coinbase()) as nat
        }
    }

    /// Whether the block holds a coinbase command.
    pub open spec fn has_coinbase(self) -> bool {
        &&& self.transactions.coinbase@ != "0"@
        &&& self.transactions.coinbase_receiver is Some
        &&& self.net_coinbase() > 0
    }

    /// The coinbase command.
    pub open spec fn coinbase_command(self) -> InternalCommandView {
        InternalCommandView {
            command_type: InternalCommandType::Coinbase,
            receiver: self.producer()->0,
            fee: Some(crate::text::decimal(self.net_coinbase())),
            hash: self.state_hash@,
            creation_fee: crate::commands::creation_fee_text(
                self.transactions.coinbase_receiver_account_creation_fee_paid,
            ),
            sequence_no: 0,
            secondary_sequence_no: 0,
            status: TransactionStatus::Applied,
            coinbase_receiver: self.producer(),
        }
    }

    /// The command of the fee transfer at `i`, as the internal command number `sequence_no`. It
    /// is a plain transfer: what the producer pays for SNARK works is withheld from its own
    /// credits.
    pub open spec fn fee_command(self, i: int, sequence_no: int) -> InternalCommandView {
        InternalCommandView {
            command_type: InternalCommandType::FeeTransfer,
            receiver: self.transactions.fee_transfer@[i].recipient@,
            fee: Some(crate::text::decimal(self.net_fee(i))),
            hash: self.state_hash@,
            creation_fee: None,
            sequence_no,
            secondary_sequence_no: 0,
            status: TransactionStatus::Applied,
            coinbase_receiver: self.producer(),
        }
    }

    /// The coinbase command, if there is one, and the commands of the first `n` fee transfers,
    /// without those that credit nothing. They are numbered in order.
    pub open spec fn commands_through(self, n: int) -> Seq<InternalCommandView>
        decreases n,
    {
        if n <= 0 {
            if self.has_coinbase() {
                seq![self.coinbase_command()]
            } else {
                Seq::empty()
            }
        } else {
            let before = self.commands_through(n - 1);
            if self.net_fee(n - 1) > 0 {
                before.push(self.fee_command(n - 1, before.len() as int))
            } else {
                before
            }
        }
    }

    /// The internal commands of the block.
    pub open spec fn internal_commands(self) -> Seq<InternalCommandView> {
        self.commands_through(self.transactions.fee_transfer@.len() as int)
    }

    /// Whether the SNARK cost and the producer's fees fit in 64 bits, and the internal commands
    /// can be numbered in 32 bits.
    pub open spec fn sums_fit(self) -> bool {
        &&& self.snark_cost() <= u64::MAX
        &&& producer_fees(self.transactions.fee_transfer@, self.producer()) <= u64::MAX
        &&& self.transactions.fee_transfer@.len() < i32::MAX
    }
}

proof fn lemma_producer_fees_prefix(
    transfers: Seq<IxFeeTransfer>,
    producer: Option<Seq<char>>,
    n: int,
)
    requires
        0 <= n <= transfers.len(),
    ensures
        producer_fees(transfers.take(n), producer) <= producer_fees(transfers, producer),
    decreases transfers.len() - n,
{
    if n < transfers.len() {
        lemma_producer_fees_prefix(transfers, producer, n + 1);
        assert(transfers.take(n + 1).drop_last() =~= transfers.take(n));
    } else {
        assert(transfers.take(n) =~= transfers);
    }
}

proof fn lemma_snark_fees_prefix(jobs: Seq<IxSnarkJob>, n: int)
    requires
        0 <= n <= jobs.len(),
    ensures
        snark_fees(jobs.take(n)) <= snark_fees(jobs),
    decreases jobs.len() - n,
{
    if n < jobs.len() {
        lemma_snark_fees_prefix(jobs, n + 1);
        assert(jobs.take(n + 1).drop_last() =~= jobs.take(n));
    } else {
        assert(jobs.take(n) =~= jobs);
    }
}

/// Whether `recipient` is the producer.
fn is_producer(producer: &Option<String>, recipient: &String) -> (r: bool)
    ensures
        r == (producer.deep_view() == Some(recipient@)),
{
    match producer {
        Some(p) => *p == *recipient,
        None => false,
    }
}

impl IxBlock {
    /// Adds up the SNARK cost; `None` if it does not fit.
    fn total_snark(&self) -> (total: Option<u64>)
        ensures
            match total {
                Some(t) => t == self.snark_cost(),
                None => self.snark_cost() > u64::MAX,
            },
    {
        let jobs = &self.snark_jobs;
        let mut total: u64 = 0;
        let mut i: usize = 0;
        while i < jobs.len()
            invariant
                *jobs == self.snark_jobs,
                i <= jobs.len(),
                total == snark_fees(jobs@.take(i as int)),
            decreases jobs.len() - i,
        {
            proof {
                lemma_snark_fees_prefix(jobs@, i + 1);
                assert(jobs@.take(i + 1).drop_last() =~= jobs@.take(i as int));
            }
            match total.checked_add(jobs[i].fee) {
                Some(sum) => {
                    total = sum;
                },
                None => {
                    return None;
                },
            }
            i = i + 1;
        }
        proof {
            assert(jobs@.take(i as int) =~= jobs@);
        }
        Some(total)
    }

    /// Adds up the producer's fee transfers; `None` if the sum does not fit.
    fn producer_fee_total(&self) -> (total: Option<u64>)
        ensures
            match total {
                Some(t) => t == producer_fees(self.transactions.fee_transfer@, self.producer()),
                None => producer_fees(self.transactions.fee_transfer@, self.producer()) > u64::MAX,
            },
    {
        let transfers = &self.transactions.fee_transfer;
        let mut total: u64 = 0;
        let mut i: usize = 0;
        while i < transfers.len()
            invariant
                *transfers == self.transactions.fee_transfer,
                i <= transfers.len(),
                total == producer_fees(transfers@.take(i as int), self.producer()),
            decreases transfers.len() - i,
        {
            proof {
                lemma_producer_fees_prefix(transfers@, self.producer(), i + 1);
                assert(transfers@.take(i + 1).drop_last() =~= transfers@.take(i as int));
            }
            if is_producer(&self.transactions.coinbase_receiver, &transfers[i].recipient) {
                match total.checked_add(parse_u64_or_zero(transfers[i].fee.as_str())) {
                    Some(sum) => {
                        total = sum;
                    },
                    None => {
                        return None;
                    },
                }
            }
            i = i + 1;
        }
        proof {
            assert(transfers@.take(i as int) =~= transfers@);
        }
        Some(total)
    }
}

/// What a list of internal commands says.
pub open spec fn internal_views(commands: Seq<InternalCommandMetadata>) -> Seq<
    InternalCommandView,
> {
    commands.map_values(|m: InternalCommandMetadata| m@)
}

proof fn lemma_internal_views_push(
    commands: Seq<InternalCommandMetadata>,
    command: InternalCommandMetadata,
)
    ensures
        internal_views(commands.push(command)) == internal_views(commands).push(command@),
{
    assert(internal_views(commands.push(command)) =~= internal_views(commands).push(command@));
}

impl IxBlock {
    /// Says whether the sums over the block's fees fit in their types.
    pub fn check_sums(&self) -> (fits: bool)
        ensures
            fits == self.sums_fit(),
    {
        self.transactions.fee_transfer.len() < i32::MAX as usize && self.total_snark().is_some()
            && self.producer_fee_total().is_some()
    }

    /// The internal commands of the block: the coinbase and the fee transfers, all applied.
    ///
    /// The producer pays the SNARK works, first out of its own fee transfers, then out of the
    /// coinbase, so those are given net of the cost. The fee transfers to the provers are in the
    /// block's list already; a prover who is the producer has none, and its fee is forfeited.
    pub fn internal_command_metadata(&self) -> (commands: Vec<InternalCommandMetadata>)
        requires
            self.sums_fit(),
        ensures
            internal_views(commands@) == self.internal_commands(),
    {
        let producer = &self.transactions.coinbase_receiver;
        let transfers = &self.transactions.fee_transfer;
        let total_snark = self.total_snark().unwrap();
        let producer_fee_total = self.producer_fee_total().unwrap();
        let snark_from_fees: u64 = if total_snark <= producer_fee_total {
            total_snark
        } else {
            producer_fee_total
        };
        let snark_from_coinbase: u64 = total_snark - snark_from_fees;

        let mut commands: Vec<InternalCommandMetadata> = Vec::new();
        let mut seq: i32 = 0;
        let zero = "0".to_owned();
        if self.transactions.coinbase != zero {
            if let Some(receiver) = producer {
                let reward = parse_u64_or_zero(self.transactions.coinbase.as_str());
                let coinbase = reward.saturating_sub(snark_from_coinbase);
                if coinbase > 0 {
                    let meta = InternalCommandMetadata {
                        command_type: InternalCommandType::Coinbase,
                        receiver: receiver.clone(),
                        fee: Some(decimal_u64(coinbase)),
                        hash: self.state_hash.clone(),
                        creation_fee: creation_fee(
                            self.transactions.coinbase_receiver_account_creation_fee_paid,
                        ),
                        sequence_no: seq,
                        secondary_sequence_no: 0,
                        status: TransactionStatus::Applied,
                        coinbase_receiver: Some(receiver.clone()),
                    };
                    proof {
                        assert(meta@ == self.coinbase_command());
                        lemma_internal_views_push(commands@, meta);
                    }
                    commands.push(meta);
                    seq = 1;
                }
            }
        }
        proof {
            assert(internal_views(commands@) =~= self.commands_through(0));
            assert(transfers@.take(0) =~= Seq::empty());
            assert(transfers@.take(transfers@.len() as int) =~= transfers@);
        }
        let mut remaining: u64 = snark_from_fees;
        let mut i: usize = 0;
        while i < transfers.len()
            invariant
                *producer == self.transactions.coinbase_receiver,
                *transfers == self.transactions.fee_transfer,
                transfers.len() < i32::MAX,
                i <= transfers.len(),
                0 <= seq <= i + 1,
                seq == commands.len(),
                snark_from_fees == self.snark_from_fees(),
                remaining == snark_from_fees - self.withheld(i as int),
                internal_views(commands@) == self.commands_through(i as int),
            decreases transfers.len() - i,
        {
            let transfer = &transfers[i];
            let mut fee = parse_u64_or_zero(transfer.fee.as_str());
            proof {
                assert(transfers@.take(i + 1).drop_last() =~= transfers@.take(i as int));
            }
            if is_producer(producer, &transfer.recipient) && remaining > 0 {
                let withheld: u64 = if fee <= remaining {
                    fee
                } else {
                    remaining
                };
                fee = fee - withheld;
                remaining = remaining - withheld;
            }
            assert(fee == self.net_fee(i as int));
            if fee != 0 {
                let meta = InternalCommandMetadata {
                    command_type: InternalCommandType::FeeTransfer,
                    receiver: transfer.recipient.clone(),
                    fee: Some(decimal_u64(fee)),
                    hash: self.state_hash.clone(),
                    creation_fee: None,
                    sequence_no: seq,
                    secondary_sequence_no: 0,
                    status: TransactionStatus::Applied,
                    coinbase_receiver: copy_text(producer),
                };
                proof {
                    assert(meta@ == self.fee_command(i as int, seq as int));
                    lemma_internal_views_push(commands@, meta);
                }
                commands.push(meta);
                seq = seq + 1;
            }
            i = i + 1;
        }
        commands
    }
}

/// Which block of the indexer a request asks for.
#[derive(Debug)]
pub enum IndexerBlockQuery {
    /// The block with this state hash.
    Hash(String),
    /// The block at this height.
    Height(i64),
    /// The block at the height of the indexer's tip.
    Tip,
}

impl IndexerBlockQuery {
    /// Picks the query for a request: by hash where it has one, else by height, else the tip.
    pub fn new(partial: &PartialBlockIdentifier) -> (query: IndexerBlockQuery)
        ensures
            match (partial.hash, partial.index) {
                (Some(hash), _) => query == IndexerBlockQuery::Hash(hash),
                (None, Some(index)) => query == IndexerBlockQuery::Height(index),
                (None, None) => query == IndexerBlockQuery::Tip,
            },
    {
        match &partial.hash {
            Some(hash) => IndexerBlockQuery::Hash(hash.clone()),
            None => match partial.index {
                Some(index) => IndexerBlockQuery::Height(index),
                None => IndexerBlockQuery::Tip,
            },
        }
    }

    /// Turns a query for the tip into one for its height, once that is known.
    pub fn at_tip(self, tip_height: u32) -> (query: IndexerBlockQuery)
        ensures
            query == if self is Tip {
                IndexerBlockQuery::Height(tip_height as i64)
            } else {
                self
            },
    {
        match self {
            IndexerBlockQuery::Tip => IndexerBlockQuery::Height(tip_height as i64),
            other => other,
        }
    }
}

impl IxBlock {
    /// The block's identifier.
    pub open spec fn identifier(self) -> BlockIdentifierView {
        BlockIdentifierView { index: self.block_height as int, hash: self.state_hash@ }
    }

    /// The parent's identifier: the previous state hash, one below. The genesis block is its own
    /// parent.
    pub open spec fn parent_identifier(self) -> BlockIdentifierView {
        if self.block_height <= 1 {
            self.identifier()
        } else {
            BlockIdentifierView {
                index: self.block_height - 1,
                hash: self.protocol_state.previous_state_hash@,
            }
        }
    }

    /// The block's time, if the indexer gave one.
    pub open spec fn time(self) -> Result<int, crate::text::ParseIntError> {
        crate::text::parsed_i64(self.protocol_state.blockchain_state.utc_date@)
    }

    /// Whether the block can be given in an answer, or refused for want of a time.
    pub open spec fn can_be_given(self) -> bool {
        self.time() is Ok ==> self.sums_fit()
    }

    /// Says whether the block can be given in an answer, or refused for want of a time.
    pub fn check_can_be_given(&self) -> (can: bool)
        ensures
            can == self.can_be_given(),
    {
        match parse_i64(self.protocol_state.blockchain_state.utc_date.as_str()) {
            Ok(_) => self.check_sums(),
            Err(_) => true,
        }
    }
}

/// The metadata of a block: an object that holds its creator.
pub open spec fn is_creator_metadata(
    metadata: Option<serde_json::Value>,
    creator: Seq<char>,
) -> bool {
    metadata matches Some(m) && crate::json::json_members(m) == crate::json::single_member(
        "creator"@,
        creator,
    )
}

/// Puts a block's creator in its metadata.
pub(crate) fn creator_metadata(creator: &String) -> (metadata: Option<serde_json::Value>)
    ensures
        is_creator_metadata(metadata, creator@),
{
    Some(json_object("creator".to_owned(), creator.clone()))
}

impl<UO, UM, II, IO> TransactionGenerators<UO, UM, II, IO> where
    UO: Fn(&UserCommandMetadata) -> Vec<coinbase_mesh::models::Operation>,
    UM: Fn(&UserCommandMetadata) -> Option<serde_json::Value>,
    II: Fn(&InternalCommandType, i32, i32, &String) -> String,
    IO: Fn(&InternalCommandMetadata) -> Vec<coinbase_mesh::models::Operation>,
 {
    /// Whether `block` presents an indexer block: the user commands in order, then the internal
    /// commands.
    pub open spec fn presents_indexer_block(&self, ix: IxBlock, block: Block) -> bool {
        let users = ix.transactions.user_commands@;
        let internals = ix.internal_commands();
        &&& block.block_identifier@ == ix.identifier()
        &&& block.parent_block_identifier@ == ix.parent_identifier()
        &&& ix.time() == Ok::<int, crate::text::ParseIntError>(block.timestamp as int)
        &&& is_creator_metadata(block.metadata, ix.creator_account.public_key@)
        &&& block.transactions@.len() == users.len() + internals.len()
        &&& forall|i: int|
            0 <= i < users.len() ==> self.presents_user(
                users[i].metadata(),
                #[trigger] block.transactions@[i],
            )
        &&& forall|k: int|
            users.len() <= k < block.transactions@.len() ==> self.presents_internal(
                internals[k - users.len()],
                #[trigger] block.transactions@[k],
            )
    }

    /// Answers a block request with what the indexer found for it.
    ///
    /// The indexer has no hashes of internal commands, so their transactions are named after the
    /// block, and it does not itemize zkApp commands.
    pub fn block_from_indexer(
        &self,
        found: Option<IxBlock>,
        partial: &PartialBlockIdentifier,
    ) -> (response: Result<BlockResponse, MinaMeshError>)
        requires
            self.total(),
            found matches Some(ix) ==> ix.can_be_given(),
        ensures
            match found {
                None => response == Err::<BlockResponse, MinaMeshError>(
                    MinaMeshError::BlockMissing(partial.index, partial.hash),
                ),
                Some(ix) => match ix.time() {
                    Err(e) => response == Err::<BlockResponse, MinaMeshError>(
                        MinaMeshError::ParseInt(e),
                    ),
                    Ok(_) => {
                        &&& response matches Ok(r)
                        &&& r.other_transactions is None
                        &&& r.block matches Some(block)
                        &&& self.presents_indexer_block(ix, block)
                    },
                },
            },
    {
        let ix = match found {
            Some(ix) => ix,
            None => {
                return Err(MinaMeshError::BlockMissing(partial.index, copy_text(&partial.hash)));
            },
        };
        let block_identifier = BlockIdentifier::new(ix.block_height as i64, ix.state_hash.clone());
        let parent_block_identifier = if ix.block_height <= 1 {
            block_identifier.copy()
        } else {
            BlockIdentifier::new(
                ix.block_height as i64 - 1,
                ix.protocol_state.previous_state_hash.clone(),
            )
        };
        let timestamp = match parse_i64(ix.protocol_state.blockchain_state.utc_date.as_str()) {
            Ok(t) => t,
            Err(e) => {
                return Err(MinaMeshError::ParseInt(e));
            },
        };

        let users = &ix.transactions.user_commands;
        let mut transactions: Vec<Transaction> = Vec::new();
        let mut i: usize = 0;
        while i < users.len()
            invariant
                self.total(),
                i <= users.len(),
                transactions.len() == i,
                forall|j: int|
                    0 <= j < i ==> self.presents_user(
                        users@[j].metadata(),
                        #[trigger] transactions@[j],
                    ),
            decreases users.len() - i,
        {
            let meta = users[i].to_metadata();
            transactions.push(self.user_command_transaction(&meta));
            i = i + 1;
        }

        let internals = ix.internal_command_metadata();
        let mut more = self.internal_transactions(&internals);
        transactions.append(&mut more);
        proof {
            assert forall|k: int|
                users@.len() <= k < transactions@.len() implies self.presents_internal(
                ix.internal_commands()[k - users@.len()],
                #[trigger] transactions@[k],
            ) by {
                let j = k - users@.len();
                assert(internal_views(internals@)[j] == internals@[j]@);
            }
        }

        let metadata = creator_metadata(&ix.creator_account.public_key);
        Ok(
            BlockResponse {
                block: Some(
                    Block {
                        block_identifier,
                        parent_block_identifier,
                        timestamp,
                        transactions,
                        metadata,
                    },
                ),
                other_transactions: None,
            },
        )
    }
}

/// What internal commands credit in all.
pub open spec fn credited(commands: Seq<InternalCommandView>) -> nat
    decreases commands.len(),
{
    if commands.len() == 0 {
        0
    } else {
        credited(commands.drop_last()) + crate::text::u64_or_zero(
            crate::types::or_empty(commands.last().fee),
        )
    }
}

/// What internal commands credit to `account`.
pub open spec fn credited_to(commands: Seq<InternalCommandView>, account: Seq<char>) -> nat
    decreases commands.len(),
{
    if commands.len() == 0 {
        0
    } else {
        credited_to(commands.drop_last(), account) + if commands.last().receiver == account {
            crate::text::u64_or_zero(crate::types::or_empty(commands.last().fee))
        } else {
            0
        }
    }
}

/// What fee transfers move to `account`.
pub open spec fn transfer_fees_to(transfers: Seq<IxFeeTransfer>, account: Seq<char>) -> nat {
    producer_fees(transfers, Some(account))
}

impl IxBlock {
    /// The block reward, before anything is withheld from it.
    pub open spec fn reward(self) -> nat {
        crate::text::u64_or_zero(self.transactions.coinbase@)
    }
}

proof fn lemma_withheld_step(ix: IxBlock, i: int)
    requires
        0 <= i < ix.transactions.fee_transfer@.len(),
    ensures
        ix.withheld(i) <= ix.withheld(i + 1),
        ix.withheld(i + 1) - ix.withheld(i) <= transfer_fee(ix.transactions.fee_transfer@[i]),
        ix.net_fee(i) + ix.withheld(i + 1) == transfer_fee(ix.transactions.fee_transfer@[i])
            + ix.withheld(i),
        !goes_to(ix.transactions.fee_transfer@[i], ix.producer()) ==> ix.net_fee(i) == transfer_fee(
            ix.transactions.fee_transfer@[i],
        ),
{
    let transfers = ix.transactions.fee_transfer@;
    assert(transfers.take(i + 1).drop_last() =~= transfers.take(i));
}

proof fn lemma_fee_text(n: nat)
    requires
        n <= u64::MAX,
    ensures
        crate::text::u64_or_zero(crate::text::decimal(n)) == n,
{
    crate::text::decimal_round_trip(n as u64);
}

/// Whether a fee transfer goes to the producer or not, it never credits more than it moves, and
/// only the producer's can credit less.
pub proof fn only_the_producer_pays(ix: IxBlock, i: int)
    requires
        0 <= i < ix.transactions.fee_transfer@.len(),
    ensures
        ix.net_fee(i) <= transfer_fee(ix.transactions.fee_transfer@[i]),
        !goes_to(ix.transactions.fee_transfer@[i], ix.producer()) ==> ix.net_fee(i) == transfer_fee(
            ix.transactions.fee_transfer@[i],
        ),
{
    lemma_withheld_step(ix, i);
}

/// SNARK works come out of the producer's own fee transfers first: the coinbase pays for them only
/// where nothing is left of those.
pub proof fn fees_pay_before_the_coinbase(ix: IxBlock, i: int)
    requires
        0 <= i < ix.transactions.fee_transfer@.len(),
        ix.snark_from_coinbase() > 0,
        goes_to(ix.transactions.fee_transfer@[i], ix.producer()),
    ensures
        ix.net_fee(i) == 0,
{
    let transfers = ix.transactions.fee_transfer@;
    assert(transfers.take(i + 1).drop_last() =~= transfers.take(i));
    lemma_producer_fees_prefix(transfers, ix.producer(), i);
    lemma_producer_fees_prefix(transfers, ix.producer(), i + 1);
}

proof fn lemma_credited_through(ix: IxBlock, n: int)
    requires
        0 <= n <= ix.transactions.fee_transfer@.len(),
    ensures
        credited(ix.commands_through(n)) + ix.withheld(n) == transfer_fees(
            ix.transactions.fee_transfer@.take(n),
        ) + if ix.has_coinbase() {
            ix.net_coinbase()
        } else {
            0
        },
    decreases n,
{
    let transfers = ix.transactions.fee_transfer@;
    if n == 0 {
        let commands = ix.commands_through(0);
        assert(transfers.take(0) =~= Seq::empty());
        if ix.has_coinbase() {
            crate::text::parsed_u64_bound(ix.transactions.coinbase@);
            lemma_fee_text(ix.net_coinbase());
            assert(commands.drop_last() =~= Seq::empty());
            assert(credited(commands.drop_last()) == 0);
        }
    } else {
        lemma_credited_through(ix, n - 1);
        lemma_withheld_step(ix, n - 1);
        assert(transfers.take(n).drop_last() =~= transfers.take(n - 1));
        crate::text::parsed_u64_bound(transfers[n - 1].fee@);
        lemma_fee_text(ix.net_fee(n - 1));
        let before = ix.commands_through(n - 1);
        if ix.net_fee(n - 1) > 0 {
            assert(ix.commands_through(n).drop_last() =~= before);
        }
    }
}

/// The credits of a block: its internal commands credit the net reward and what the fee transfers
/// move, less what is withheld from the producer's.
pub proof fn credits_of_a_block(ix: IxBlock)
    ensures
        credited(ix.internal_commands()) + ix.snark_from_fees() == transfer_fees(
            ix.transactions.fee_transfer@,
        ) + if ix.has_coinbase() {
            ix.net_coinbase()
        } else {
            0
        },
{
    let transfers = ix.transactions.fee_transfer@;
    lemma_credited_through(ix, transfers.len() as int);
    assert(transfers.take(transfers.len() as int) =~= transfers);
}

proof fn lemma_zero_reward(ix: IxBlock)
    requires
        ix.transactions.coinbase@ == "0"@,
    ensures
        ix.reward() == 0,
{
    reveal_strlit("0");
    assert("0"@ =~= crate::text::decimal(0));
    crate::text::decimal_round_trip(0);
}

/// The producer pays the SNARK works, once: where the reward covers what the producer's own fees
/// do not, the block credits exactly the reward and the fees less the SNARK cost.
pub proof fn snark_works_are_paid_once(ix: IxBlock)
    requires
        ix.producer() is Some,
        ix.snark_from_coinbase() <= ix.reward(),
    ensures
        credited(ix.internal_commands()) + ix.snark_cost() == ix.reward() + transfer_fees(
            ix.transactions.fee_transfer@,
        ),
{
    credits_of_a_block(ix);
    if ix.transactions.coinbase@ == "0"@ {
        lemma_zero_reward(ix);
    }
}

proof fn lemma_credited_to_through(ix: IxBlock, account: Seq<char>, n: int)
    requires
        0 <= n <= ix.transactions.fee_transfer@.len(),
    ensures
        credited_to(ix.commands_through(n), account) + (if ix.producer() == Some(account) {
            ix.withheld(n)
        } else {
            0
        }) == transfer_fees_to(ix.transactions.fee_transfer@.take(n), account) + if ix.has_coinbase()
            && ix.producer() == Some(account) {
            ix.net_coinbase()
        } else {
            0
        },
    decreases n,
{
    let transfers = ix.transactions.fee_transfer@;
    if n == 0 {
        let commands = ix.commands_through(0);
        assert(transfers.take(0) =~= Seq::empty());
        if ix.has_coinbase() {
            crate::text::parsed_u64_bound(ix.transactions.coinbase@);
            lemma_fee_text(ix.net_coinbase());
            assert(commands.drop_last() =~= Seq::empty());
            assert(credited_to(commands.drop_last(), account) == 0);
        }
    } else {
        lemma_credited_to_through(ix, account, n - 1);
        lemma_withheld_step(ix, n - 1);
        assert(transfers.take(n).drop_last() =~= transfers.take(n - 1));
        crate::text::parsed_u64_bound(transfers[n - 1].fee@);
        lemma_fee_text(ix.net_fee(n - 1));
        let before = ix.commands_through(n - 1);
        if ix.net_fee(n - 1) > 0 {
            assert(ix.commands_through(n).drop_last() =~= before);
        }
    }
}

/// The producer's credits are net of the SNARK cost: where the reward covers what its fees do not,
/// it is credited the reward and its fee transfers less the whole cost.
pub proof fn producer_is_credited_net(ix: IxBlock, producer: Seq<char>)
    requires
        ix.producer() == Some(producer),
        ix.snark_from_coinbase() <= ix.reward(),
    ensures
        credited_to(ix.internal_commands(), producer) + ix.snark_cost() == ix.reward()
            + transfer_fees_to(ix.transactions.fee_transfer@, producer),
{
    let transfers = ix.transactions.fee_transfer@;
    lemma_credited_to_through(ix, producer, transfers.len() as int);
    assert(transfers.take(transfers.len() as int) =~= transfers);
    if ix.transactions.coinbase@ == "0"@ {
        lemma_zero_reward(ix);
    }
}

/// Everybody else is credited what the block's fee transfers move to them, no more and no less.
pub proof fn others_are_credited_in_full(ix: IxBlock, account: Seq<char>)
    requires
        ix.producer() != Some(account),
    ensures
        credited_to(ix.internal_commands(), account) == transfer_fees_to(
            ix.transactions.fee_transfer@,
            account,
        ),
{
    let transfers = ix.transactions.fee_transfer@;
    lemma_credited_to_through(ix, account, transfers.len() as int);
    assert(transfers.take(transfers.len() as int) =~= transfers);
}

proof fn lemma_shape_through(ix: IxBlock, n: int, k: int)
    requires
        0 <= n <= ix.transactions.fee_transfer@.len(),
        0 <= k < ix.commands_through(n).len(),
    ensures
        ({
            let command = ix.commands_through(n)[k];
            &&& command.sequence_no == k
            &&& command.secondary_sequence_no == 0
            &&& command.hash == ix.state_hash@
            &&& command.status == TransactionStatus::Applied
            &&& command.coinbase_receiver == ix.producer()
            &&& command.command_type == InternalCommandType::Coinbase <==> k == 0
                && ix.has_coinbase()
            &&& command.command_type != InternalCommandType::FeeTransferViaCoinbase
            &&& command.fee matches Some(fee) && crate::text::u64_or_zero(fee) > 0
        }),
    decreases n,
{
    if n == 0 {
        crate::text::parsed_u64_bound(ix.transactions.coinbase@);
        lemma_fee_text(ix.net_coinbase());
    } else {
        let before = ix.commands_through(n - 1);
        if k < before.len() {
            lemma_shape_through(ix, n - 1, k);
        } else {
            lemma_withheld_step(ix, n - 1);
            crate::text::parsed_u64_bound(ix.transactions.fee_transfer@[n - 1].fee@);
            lemma_fee_text(ix.net_fee(n - 1));
            lemma_coinbase_first(ix, n - 1);
        }
    }
}

proof fn lemma_coinbase_first(ix: IxBlock, n: int)
    requires
        0 <= n,
    ensures
        ix.has_coinbase() ==> ix.commands_through(n).len() > 0,
    decreases n,
{
    if n > 0 {
        lemma_coinbase_first(ix, n - 1);
    }
}

/// The internal commands of a block are numbered from zero without gaps, carry the block's hash,
/// are applied and credit something. The coinbase is the first of them, if there is one, and all
/// others are plain fee transfers.
pub proof fn internal_commands_are_numbered(ix: IxBlock, k: int)
    requires
        0 <= k < ix.internal_commands().len(),
    ensures
        ({
            let command = ix.internal_commands()[k];
            &&& command.sequence_no == k
            &&& command.secondary_sequence_no == 0
            &&& command.hash == ix.state_hash@
            &&& command.status == TransactionStatus::Applied
            &&& command.coinbase_receiver == ix.producer()
            &&& command.command_type == InternalCommandType::Coinbase <==> k == 0
                && ix.has_coinbase()
            &&& command.command_type != InternalCommandType::FeeTransferViaCoinbase
            &&& command.fee matches Some(fee) && crate::text::u64_or_zero(fee) > 0
        }),
{
    lemma_shape_through(ix, ix.transactions.fee_transfer@.len() as int, k);
}

/// The SNARK cost is the sum over all works, each counted once whatever the others cost.
pub proof fn every_snark_work_counts(some: Seq<IxSnarkJob>, more: Seq<IxSnarkJob>, job: IxSnarkJob)
    ensures
        snark_fees(Seq::empty()) == 0,
        snark_fees(seq![job]) == job.fee,
        snark_fees(some.push(job)) == snark_fees(some) + job.fee,
        snark_fees(some + more) == snark_fees(some) + snark_fees(more),
    decreases more.len(),
{
    assert(seq![job].drop_last() =~= Seq::empty());
    assert(snark_fees(seq![job].drop_last()) == 0);
    assert(some.push(job).drop_last() =~= some);
    if more.len() > 0 {
        every_snark_work_counts(some, more.drop_last(), job);
        assert((some + more).drop_last() =~= some + more.drop_last());
    } else {
        assert(some + more =~= some);
    }
}

/// What transfers move is the sum over all of them, each counted once: in all, and to an account
/// over those that it receives. A transfer moves the number that its fee spells, or nothing.
pub proof fn every_fee_transfer_counts(
    some: Seq<IxFeeTransfer>,
    more: Seq<IxFeeTransfer>,
    transfer: IxFeeTransfer,
    account: Seq<char>,
)
    ensures
        crate::text::parsed_u64(transfer.fee@) matches Ok(n) ==> transfer_fee(transfer) == n,
        crate::text::parsed_u64(transfer.fee@) is Err ==> transfer_fee(transfer) == 0,
        transfer_fees(Seq::empty()) == 0,
        transfer_fees(some.push(transfer)) == transfer_fees(some) + transfer_fee(transfer),
        transfer_fees(some + more) == transfer_fees(some) + transfer_fees(more),
        transfer_fees_to(Seq::empty(), account) == 0,
        transfer.recipient@ == account ==> transfer_fees_to(some.push(transfer), account)
            == transfer_fees_to(some, account) + transfer_fee(transfer),
        transfer.recipient@ != account ==> transfer_fees_to(some.push(transfer), account)
            == transfer_fees_to(some, account),
        transfer_fees_to(some + more, account) == transfer_fees_to(some, account)
            + transfer_fees_to(more, account),
        producer_fees(some, None) == 0,
        producer_fees(some, Some(account)) == transfer_fees_to(some, account),
    decreases more.len() + some.len(),
{
    assert(some.push(transfer).drop_last() =~= some);
    if some.len() > 0 {
        every_fee_transfer_counts(some.drop_last(), Seq::empty(), transfer, account);
    }
    if more.len() > 0 {
        every_fee_transfer_counts(some, more.drop_last(), transfer, account);
        assert((some + more).drop_last() =~= some + more.drop_last());
    } else {
        assert(some + more =~= some);
    }
}

/// What commands credit is the sum over all of them, each counted once: in all, and to an account
/// over those that it receives.
pub proof fn every_credit_counts(
    some: Seq<InternalCommandView>,
    command: InternalCommandView,
    fee: Seq<char>,
    n: nat,
    account: Seq<char>,
)
    requires
        command.fee == Some(fee),
        crate::text::parsed_u64(fee) == Ok::<nat, crate::text::ParseIntError>(n),
    ensures
        credited(Seq::empty()) == 0,
        credited(some.push(command)) == credited(some) + n,
        credited_to(Seq::empty(), account) == 0,
        command.receiver == account ==> credited_to(some.push(command), account) == credited_to(
            some,
            account,
        ) + n,
        command.receiver != account ==> credited_to(some.push(command), account) == credited_to(
            some,
            account,
        ),
{
    assert(some.push(command).drop_last() =~= some);
}

/// What is asked of a block is what the block says: the producer is the receiver of the coinbase,
/// the SNARK cost that of its works, and the reward the number that its coinbase spells, or
/// nothing.
pub proof fn block_terms_are_those_of_its_record(ix: IxBlock)
    ensures
        ix.transactions.coinbase_receiver matches Some(p) ==> ix.producer() == Some(p@),
        ix.transactions.coinbase_receiver is None ==> ix.producer() is None,
        ix.snark_cost() == snark_fees(ix.snark_jobs@),
        crate::text::parsed_u64(ix.transactions.coinbase@) matches Ok(n) ==> ix.reward() == n,
        crate::text::parsed_u64(ix.transactions.coinbase@) is Err ==> ix.reward() == 0,
{
}

/// `n` less `m`, or nothing if that is more.
pub open spec fn beyond(n: int, m: int) -> int {
    if n > m {
        n - m
    } else {
        0
    }
}

/// The SNARK cost is withheld from the producer's fee transfers in order, until it is paid: after
/// each of them, what they have credited is what they have moved beyond the cost. Everybody else's
/// transfers credit what they move.
pub proof fn producers_fees_are_withheld_in_order(ix: IxBlock, i: int)
    requires
        0 <= i < ix.transactions.fee_transfer@.len(),
    ensures
        ({
            let transfers = ix.transactions.fee_transfer@;
            let cost = snark_fees(ix.snark_jobs@) as int;
            match ix.transactions.coinbase_receiver {
                Some(p) if transfers[i].recipient@ == p@ => beyond(
                    transfer_fees_to(transfers.take(i), p@) as int,
                    cost,
                ) + ix.net_fee(i) == beyond(
                    (transfer_fees_to(transfers.take(i), p@) + transfer_fee(transfers[i])) as int,
                    cost,
                ),
                _ => ix.net_fee(i) == transfer_fee(transfers[i]),
            }
        }),
{
    let transfers = ix.transactions.fee_transfer@;
    assert(transfers.take(i + 1).drop_last() =~= transfers.take(i));
    lemma_producer_fees_prefix(transfers, ix.producer(), i);
    lemma_producer_fees_prefix(transfers, ix.producer(), i + 1);
}

/// The coinbase is given net of what the producer's fee transfers leave of the SNARK cost. There is
/// one exactly if somebody receives it and something is left of it.
pub proof fn coinbase_is_net_of_what_the_fees_leave(ix: IxBlock)
    ensures
        ({
            let cost = snark_fees(ix.snark_jobs@) as int;
            match ix.transactions.coinbase_receiver {
                Some(p) => {
                    let fees = transfer_fees_to(ix.transactions.fee_transfer@, p@) as int;
                    let left = beyond(ix.reward() as int, beyond(cost, fees));
                    &&& ix.net_coinbase() == left
                    &&& ix.has_coinbase() <==> left > 0
                },
                None => !ix.has_coinbase(),
            }
        }),
{
    if ix.transactions.coinbase@ == "0"@ {
        lemma_zero_reward(ix);
    }
}

/// The producer is credited what its reward and its fee transfers come to beyond the SNARK cost,
/// and nothing where they do not come to it.
pub proof fn producer_is_credited_what_is_beyond_the_cost(ix: IxBlock, producer: String)
    requires
        ix.transactions.coinbase_receiver == Some(producer),
    ensures
        credited_to(ix.internal_commands(), producer@) == beyond(
            (ix.reward() + transfer_fees_to(ix.transactions.fee_transfer@, producer@)) as int,
            snark_fees(ix.snark_jobs@) as int,
        ),
{
    let transfers = ix.transactions.fee_transfer@;
    lemma_credited_to_through(ix, producer@, transfers.len() as int);
    assert(transfers.take(transfers.len() as int) =~= transfers);
    if ix.transactions.coinbase@ == "0"@ {
        lemma_zero_reward(ix);
    }
}

/// How many of the first `n` fee transfers credit something.
pub open spec fn crediting_transfers(ix: IxBlock, n: int) -> nat
    decreases n,
{
    if n <= 0 {
        0
    } else {
        crediting_transfers(ix, n - 1) + if ix.net_fee(n - 1) > 0 {
            1nat
        } else {
            0
        }
    }
}

proof fn lemma_commands_through_len(ix: IxBlock, n: int)
    requires
        0 <= n,
    ensures
        ix.commands_through(n).len() == crediting_transfers(ix, n) + if ix.has_coinbase() {
            1int
        } else {
            0
        },
    decreases n,
{
    if n > 0 {
        lemma_commands_through_len(ix, n - 1);
    }
}

proof fn lemma_commands_through_prefix(ix: IxBlock, n: int, m: int)
    requires
        0 <= n <= m,
    ensures
        ix.commands_through(n).len() <= ix.commands_through(m).len(),
        forall|k: int|
            0 <= k < ix.commands_through(n).len() ==> #[trigger] ix.commands_through(n)[k]
                == ix.commands_through(m)[k],
    decreases m,
{
    if n < m {
        lemma_commands_through_prefix(ix, n, m - 1);
    }
}

/// Every fee transfer that credits something has its own command, behind the coinbase, if there is
/// one, and behind those of the transfers before it. The command credits the transfer's recipient
/// with what is left of the transfer, and creates no account.
pub proof fn every_crediting_transfer_has_its_command(ix: IxBlock, i: int)
    requires
        0 <= i < ix.transactions.fee_transfer@.len(),
        ix.net_fee(i) > 0,
    ensures
        ({
            let place = crediting_transfers(ix, i) + if ix.has_coinbase() {
                1int
            } else {
                0
            };
            let command = ix.internal_commands()[place];
            &&& 0 <= place < ix.internal_commands().len()
            &&& command.command_type == InternalCommandType::FeeTransfer
            &&& command.receiver == ix.transactions.fee_transfer@[i].recipient@
            &&& command.fee matches Some(fee) && crate::commands::is_plain_decimal(
                fee,
                ix.net_fee(i) as u64,
            )
            &&& ix.net_fee(i) <= u64::MAX
            &&& command.creation_fee is None
        }),
{
    let n = ix.transactions.fee_transfer@.len() as int;
    lemma_commands_through_len(ix, i);
    lemma_commands_through_prefix(ix, i + 1, n);
    lemma_withheld_step(ix, i);
    crate::text::parsed_u64_bound(ix.transactions.fee_transfer@[i].fee@);
    crate::commands::decimals_spell_their_number(ix.net_fee(i) as u64);
    assert(ix.commands_through(i + 1)[ix.commands_through(i).len() as int] == ix.fee_command(
        i,
        ix.commands_through(i).len() as int,
    ));
}

/// A block has no other internal commands than its coinbase and those of its crediting transfers.
/// The coinbase credits its receiver with what is left of the reward, and carries the
/// account-creation fee of 1 MINA where that was paid.
pub proof fn block_has_no_other_internal_commands(ix: IxBlock)
    ensures
        ix.internal_commands().len() == crediting_transfers(
            ix,
            ix.transactions.fee_transfer@.len() as int,
        ) + if ix.has_coinbase() {
            1int
        } else {
            0
        },
        ix.has_coinbase() ==> {
            let command = ix.internal_commands()[0];
            &&& ix.transactions.coinbase_receiver matches Some(p) && command.receiver == p@
            &&& command.fee matches Some(fee) && crate::commands::is_plain_decimal(
                fee,
                ix.net_coinbase() as u64,
            )
            &&& ix.net_coinbase() <= u64::MAX
            &&& if ix.transactions.coinbase_receiver_account_creation_fee_paid {
                command.creation_fee matches Some(fee) && crate::commands::is_plain_decimal(
                    fee,
                    1_000_000_000,
                )
            } else {
                command.creation_fee is None
            }
        },
{
    let n = ix.transactions.fee_transfer@.len() as int;
    lemma_commands_through_len(ix, n);
    if ix.has_coinbase() {
        lemma_commands_through_prefix(ix, 0, n);
        assert(ix.commands_through(0)[0] == ix.coinbase_command());
        crate::text::parsed_u64_bound(ix.transactions.coinbase@);
        crate::commands::decimals_spell_their_number(ix.net_coinbase() as u64);
        crate::commands::decimals_spell_their_number(1_000_000_000);
    }
}

/// A block is only refused where its sums do not fit: where the SNARK cost and the producer's fees
/// are 64-bit numbers, and there are fewer transfers than 32-bit numbers, it can be given.
pub proof fn blocks_with_small_sums_can_be_given(ix: IxBlock)
    requires
        snark_fees(ix.snark_jobs@) <= 0xffff_ffff_ffff_ffff,
        ix.transactions.coinbase_receiver matches Some(p) ==> transfer_fees_to(
            ix.transactions.fee_transfer@,
            p@,
        ) <= 0xffff_ffff_ffff_ffff,
        ix.transactions.fee_transfer@.len() < 0x7fff_ffff,
    ensures
        ix.sums_fit(),
        ix.can_be_given(),
{
    if ix.producer() is None {
        every_fee_transfer_counts(
            ix.transactions.fee_transfer@,
            Seq::empty(),
            ix.transactions.fee_transfer@[0],
            Seq::empty(),
        );
    }
}

/// A block without a time can always be refused for the want of it.
pub proof fn blocks_without_a_time_can_be_refused(ix: IxBlock)
    requires
        crate::text::parsed_i64(ix.protocol_state.blockchain_state.utc_date@) is Err,
    ensures
        ix.can_be_given(),
{
}

/// A list of internal commands says what each of them says, in its order.
pub proof fn internal_commands_say_what_each_says(commands: Seq<InternalCommandMetadata>, k: int)
    ensures
        internal_views(commands).len() == commands.len(),
        0 <= k < commands.len() ==> internal_views(commands)[k] == commands[k]@,
{
}

/// The metadata of a block names its creator, and nothing else.
pub proof fn metadata_names_the_creator(
    metadata: Option<serde_json::Value>,
    creator: Seq<char>,
    other: Seq<char>,
)
    requires
        is_creator_metadata(metadata, creator),
    ensures
        metadata matches Some(m) && {
            &&& crate::json::json_members(m).contains_key(other) <==> other == "creator"@
            &&& crate::json::json_members(m)["creator"@] == Some(creator)
        },
{
}

impl<UO, UM, II, IO> TransactionGenerators<UO, UM, II, IO> where
    UO: Fn(&UserCommandMetadata) -> Vec<coinbase_mesh::models::Operation>,
    UM: Fn(&UserCommandMetadata) -> Option<serde_json::Value>,
    II: Fn(&InternalCommandType, i32, i32, &String) -> String,
    IO: Fn(&InternalCommandMetadata) -> Vec<coinbase_mesh::models::Operation>,
 {
    /// A block of the indexer is given under its own height and hash, and its parent is the one
    /// below with the previous state hash; the first block is its own parent. Its time is the
    /// number that the indexer's text spells, and its metadata names its creator.
    pub proof fn indexer_block_is_given_under_its_own_name(&self, ix: IxBlock, block: Block)
        requires
            self.presents_indexer_block(ix, block),
        ensures
            block.block_identifier.index == ix.block_height,
            block.block_identifier.hash@ == ix.state_hash@,
            ix.block_height > 1 ==> {
                &&& block.parent_block_identifier.index == ix.block_height - 1
                &&& block.parent_block_identifier.hash@ == ix.protocol_state.previous_state_hash@
            },
            ix.block_height <= 1 ==> {
                &&& block.parent_block_identifier.index == ix.block_height
                &&& block.parent_block_identifier.hash@ == ix.state_hash@
            },
            crate::text::parsed_i64(ix.protocol_state.blockchain_state.utc_date@) == Ok::<
                int,
                crate::text::ParseIntError,
            >(block.timestamp as int),
            ix.time() == crate::text::parsed_i64(ix.protocol_state.blockchain_state.utc_date@),
            is_creator_metadata(block.metadata, ix.creator_account.public_key@),
    {
    }

    /// A block of the indexer holds a transaction for every user command and every internal
    /// command, and no other: the user commands come first, and each kind is in its order.
    pub proof fn indexer_block_holds_every_command_once(&self, ix: IxBlock, block: Block, k: int)
        requires
            self.presents_indexer_block(ix, block),
        ensures
            block.transactions@.len() == ix.transactions.user_commands@.len()
                + ix.internal_commands().len(),
            0 <= k < ix.transactions.user_commands@.len() ==> {
                let t = block.transactions@[k];
                let command = ix.transactions.user_commands@[k];
                &&& t.transaction_identifier.hash@ == command.hash@
                &&& self.presents_user(command.metadata(), t)
            },
            0 <= k < ix.internal_commands().len() ==> self.presents_internal(
                ix.internal_commands()[k],
                block.transactions@[ix.transactions.user_commands@.len() + k],
            ),
    {
        if 0 <= k < ix.internal_commands().len() {
            let at = ix.transactions.user_commands@.len() + k;
            assert(self.presents_internal(
                ix.internal_commands()[at - ix.transactions.user_commands@.len()],
                block.transactions@[at],
            ));
        }
    }
}

/// A request for the tip becomes one for its height; every other stays as it is.
pub proof fn only_the_tip_takes_a_height(
    query: IndexerBlockQuery,
    tip_height: u32,
    next: IndexerBlockQuery,
)
    requires
        call_ensures(IndexerBlockQuery::at_tip, (query, tip_height), next),
    ensures
        next !is Tip,
        query is Tip ==> (next matches IndexerBlockQuery::Height(n) && n == tip_height),
        query !is Tip ==> next == query,
{
}

} // verus!
