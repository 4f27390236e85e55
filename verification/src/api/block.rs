//! The block endpoint: which backend serves a block, and a block that the archive serves.

use vstd::prelude::*;

use crate::api::indexer_block::{creator_metadata, IndexerBlockQuery};
use crate::archive::{ArchiveQuery, SqlArg};
use crate::commands::TransactionGenerators;
use crate::error::MinaMeshError;
use crate::mesh::MinaMesh;
use crate::text::parse_i64;
use crate::types::{
    copy_text, Block, BlockIdentifier, BlockResponse, ChainStatus, InternalCommandMetadata,
    InternalCommandType, PartialBlockIdentifier, Transaction, TransactionIdentifier,
    UserCommandMetadata, ZkAppBlock, ZkAppTransaction,
};

verus! {

/// A row of the archive's blocks.
#[derive(Debug, PartialEq, Eq)]
pub struct BlockMetadata {
    pub id: i32,
    pub block_winner_id: i32,
    pub chain_status: Option<ChainStatus>,
    pub creator_id: i32,
    pub global_slot_since_genesis: i64,
    pub global_slot_since_hard_fork: i64,
    pub height: i64,
    pub last_vrf_output: String,
    pub ledger_hash: String,
    pub min_window_density: i64,
    pub next_epoch_data_id: i32,
    pub state_hash: String,
    pub sub_window_densities: Vec<i64>,
    pub timestamp: String,
    pub total_currency: Option<String>,
    pub parent_hash: String,
    pub parent_id: Option<i32>,
    pub proposed_protocol_version_id: Option<i32>,
    pub protocol_version_id: i32,
    pub snarked_ledger_hash_id: i32,
    pub staking_epoch_data_id: i32,
    pub creator: String,
    pub winner: String,
}

/// How to look a block up in the archive.
#[derive(Debug)]
pub enum BlockMetadataQuery {
    /// Run this query.
    Ready(ArchiveQuery),
    /// The block is asked for by this height alone: ask for the greatest canonical height, and
    /// pick the query by it.
    Height(i64),
}

/// Where a block comes from.
#[derive(Debug)]
pub enum BlockRoute {
    /// From the trustless indexer.
    Indexer(IndexerBlockQuery),
    /// From the archive.
    Archive(BlockMetadataQuery),
}

/// Asks for the greatest height of the canonical chain.
pub fn max_canonical_height_query() -> (query: ArchiveQuery)
    ensures
        query.is("sql/queries/max_canonical_height.sql"@, Seq::empty()),
{
    ArchiveQuery { file: "sql/queries/max_canonical_height.sql", args: Vec::new() }
}

/// Asks for the block at a height: on the canonical chain up to its greatest height, above that
/// among the pending blocks.
pub fn height_query(index: i64, max_canonical_height: i64) -> (query: ArchiveQuery)
    ensures
        index <= max_canonical_height ==> query.is(
            "sql/queries/query_canonical.sql"@,
            seq![SqlArg::Integer(Some(index))],
        ),
        index > max_canonical_height ==> query.is(
            "sql/queries/query_pending.sql"@,
            seq![SqlArg::Integer(Some(index))],
        ),
{
    let mut args: Vec<SqlArg> = Vec::new();
    args.push(SqlArg::Integer(Some(index)));
    let file = if index <= max_canonical_height {
        "sql/queries/query_canonical.sql"
    } else {
        "sql/queries/query_pending.sql"
    };
    ArchiveQuery { file, args }
}

impl BlockMetadata {
    /// Asks for the block's parent, if the archive has one.
    pub fn parent_query(&self) -> (query: Option<ArchiveQuery>)
        ensures
            match self.parent_id {
                Some(parent_id) => query matches Some(q) && q.is(
                    "sql/queries/query_id.sql"@,
                    seq![SqlArg::Id(parent_id)],
                ),
                None => query is None,
            },
    {
        match self.parent_id {
            Some(parent_id) => {
                let mut args: Vec<SqlArg> = Vec::new();
                args.push(SqlArg::Id(parent_id));
                Some(ArchiveQuery { file: "sql/queries/query_id.sql", args })
            },
            None => None,
        }
    }
}

/// The block that the archive found, or the error that there is none.
pub fn found_block(found: Option<BlockMetadata>, partial: &PartialBlockIdentifier) -> (block: Result<
    BlockMetadata,
    MinaMeshError,
>)
    ensures
        match found {
            Some(metadata) => block == Ok::<BlockMetadata, MinaMeshError>(metadata),
            None => block == Err::<BlockMetadata, MinaMeshError>(
                MinaMeshError::BlockMissing(partial.index, partial.hash),
            ),
        },
{
    match found {
        Some(metadata) => Ok(metadata),
        None => Err(MinaMeshError::BlockMissing(partial.index, copy_text(&partial.hash))),
    }
}

impl MinaMesh {
    /// Whether `route` leads to the block that a request asks for: through the indexer where one
    /// is configured, else through the archive. Where there is neither, it is the error that says
    /// so.
    pub open spec fn routes_block(
        self,
        partial: PartialBlockIdentifier,
        route: Result<BlockRoute, MinaMeshError>,
    ) -> bool {
        if self.indexer is Some {
            &&& route matches Ok(BlockRoute::Indexer(query))
            &&& match (partial.hash, partial.index) {
                (Some(hash), _) => query == IndexerBlockQuery::Hash(hash),
                (None, Some(index)) => query == IndexerBlockQuery::Height(index),
                (None, None) => query == IndexerBlockQuery::Tip,
            }
        } else if self.pg_pool is Some {
            &&& route matches Ok(BlockRoute::Archive(query))
            &&& is_block_metadata_query(partial, query)
        } else {
            &&& route matches Err(e)
            &&& e.is_exception("no archive database configured (indexer-only mode)"@)
        }
    }

    /// Decides where a block comes from: from the indexer where one is configured, else from the
    /// archive.
    pub fn block(&self, partial: &PartialBlockIdentifier) -> (route: Result<
        BlockRoute,
        MinaMeshError,
    >)
        ensures
            self.routes_block(*partial, route),
    {
        if self.indexer.is_some() {
            return Ok(BlockRoute::Indexer(IndexerBlockQuery::new(partial)));
        }
        match self.block_metadata(partial) {
            Ok(query) => Ok(BlockRoute::Archive(query)),
            Err(e) => Err(e),
        }
    }

    /// Decides how to look a block up in the archive: by hash and height, by height, by hash, or
    /// the best block.
    pub fn block_metadata(&self, partial: &PartialBlockIdentifier) -> (query: Result<
        BlockMetadataQuery,
        MinaMeshError,
    >)
        ensures
            match self.pg_pool {
                Some(_) => query matches Ok(q) && is_block_metadata_query(*partial, q),
                None => query matches Err(e) && e.is_exception(
                    "no archive database configured (indexer-only mode)"@,
                ),
            },
    {
        if let Err(e) = self.pg() {
            return Err(e);
        }
        let mut args: Vec<SqlArg> = Vec::new();
        match &partial.hash {
            Some(hash) => {
                args.push(SqlArg::Text(Some(hash.clone())));
                match partial.index {
                    Some(index) => {
                        args.push(SqlArg::Integer(Some(index)));
                        let file = "sql/queries/query_both.sql";
                        Ok(BlockMetadataQuery::Ready(ArchiveQuery { file, args }))
                    },
                    None => {
                        let file = "sql/queries/query_hash.sql";
                        Ok(BlockMetadataQuery::Ready(ArchiveQuery { file, args }))
                    },
                }
            },
            None => match partial.index {
                Some(index) => Ok(BlockMetadataQuery::Height(index)),
                None => {
                    let file = "sql/queries/query_best.sql";
                    Ok(BlockMetadataQuery::Ready(ArchiveQuery { file, args }))
                },
            },
        }
    }

    /// Asks for the user commands of a block.
    pub fn user_commands(&self, metadata: &BlockMetadata) -> (query: Result<
        ArchiveQuery,
        MinaMeshError,
    >)
        ensures
            self.asks_archive(
                query,
                "sql/queries/user_commands.sql"@,
                seq![SqlArg::Id(metadata.id)],
            ),
    {
        let mut args: Vec<SqlArg> = Vec::new();
        args.push(SqlArg::Id(metadata.id));
        self.archive_query("sql/queries/user_commands.sql", args)
    }

    /// Asks for the internal commands of a block, in the default token.
    pub fn internal_commands(&self, metadata: &BlockMetadata, default_token_id: &String) -> (query:
        Result<ArchiveQuery, MinaMeshError>)
        ensures
            self.asks_archive(
                query,
                "sql/queries/internal_commands.sql"@,
                seq![SqlArg::Id(metadata.id), SqlArg::Text(Some(*default_token_id))],
            ),
    {
        let mut args: Vec<SqlArg> = Vec::new();
        args.push(SqlArg::Id(metadata.id));
        args.push(SqlArg::Text(Some(default_token_id.clone())));
        self.archive_query("sql/queries/internal_commands.sql", args)
    }

    /// Asks for the zkApp commands of a block, in the default token.
    pub fn zkapp_commands(&self, metadata: &BlockMetadata, default_token_id: &String) -> (query:
        Result<ArchiveQuery, MinaMeshError>)
        ensures
            self.asks_archive(
                query,
                "sql/queries/zkapp_commands.sql"@,
                seq![SqlArg::Id(metadata.id), SqlArg::Text(Some(*default_token_id))],
            ),
    {
        let mut args: Vec<SqlArg> = Vec::new();
        args.push(SqlArg::Id(metadata.id));
        args.push(SqlArg::Text(Some(default_token_id.clone())));
        self.archive_query("sql/queries/zkapp_commands.sql", args)
    }
}

/// Whether `query` looks up the block that a request asks for.
pub open spec fn is_block_metadata_query(
    partial: PartialBlockIdentifier,
    query: BlockMetadataQuery,
) -> bool {
    match (partial.hash, partial.index) {
        (Some(hash), Some(index)) => query matches BlockMetadataQuery::Ready(q) && q.is(
            "sql/queries/query_both.sql"@,
            seq![SqlArg::Text(Some(hash)), SqlArg::Integer(Some(index))],
        ),
        (None, Some(index)) => query == BlockMetadataQuery::Height(index),
        (Some(hash), None) => query matches BlockMetadataQuery::Ready(q) && q.is(
            "sql/queries/query_hash.sql"@,
            seq![SqlArg::Text(Some(hash))],
        ),
        (None, None) => query matches BlockMetadataQuery::Ready(q) && q.is(
            "sql/queries/query_best.sql"@,
            Seq::empty(),
        ),
    }
}

/// The zkApp transactions of these blocks, in order.
pub open spec fn zkapp_transactions(blocks: Seq<ZkAppBlock>) -> Seq<ZkAppTransaction>
    decreases blocks.len(),
{
    if blocks.len() == 0 {
        Seq::empty()
    } else {
        zkapp_transactions(blocks.drop_last()) + blocks.last().transactions@
    }
}

/// Whether `transaction` presents a zkApp transaction: it carries its hash and its operations, and
/// nothing else.
pub open spec fn presents_zkapp(zkapp: ZkAppTransaction, transaction: Transaction) -> bool {
    &&& transaction.transaction_identifier.hash == zkapp.hash
    &&& transaction.operations == zkapp.operations
    &&& transaction.related_transactions is None
    &&& transaction.metadata is None
}

/// Presents a zkApp transaction.
pub(crate) fn zkapp_transaction(zkapp: ZkAppTransaction) -> (transaction: Transaction)
    ensures
        presents_zkapp(zkapp, transaction),
{
    Transaction {
        transaction_identifier: TransactionIdentifier { hash: zkapp.hash },
        operations: zkapp.operations,
        related_transactions: None,
        metadata: None,
    }
}

/// Presents the zkApp transactions of these blocks, in order.
pub fn zkapp_commands_to_transactions(commands: Vec<ZkAppBlock>) -> (transactions: Vec<Transaction>)
    ensures
        transactions@.len() == zkapp_transactions(commands@).len(),
        forall|i: int|
            0 <= i < transactions@.len() ==> presents_zkapp(
                zkapp_transactions(commands@)[i],
                #[trigger] transactions@[i],
            ),
{
    let ghost blocks = commands@;
    let mut result: Vec<Transaction> = Vec::new();
    for block in it: commands
        invariant
            it.seq() == blocks,
            result@.len() == zkapp_transactions(blocks.take(it.index() as int)).len(),
            forall|i: int|
                0 <= i < result@.len() ==> presents_zkapp(
                    zkapp_transactions(blocks.take(it.index() as int))[i],
                    #[trigger] result@[i],
                ),
    {
        let ghost before = zkapp_transactions(blocks.take(it.index() as int));
        let ghost own = block.transactions@;
        proof {
            assert(blocks.take(it.index() + 1).drop_last() =~= blocks.take(it.index() as int));
            assert(zkapp_transactions(blocks.take(it.index() + 1)) == before + own);
        }
        for zkapp in inner: block.transactions
            invariant
                inner.seq() == own,
                result@.len() == before.len() + inner.index(),
                forall|i: int|
                    0 <= i < result@.len() ==> presents_zkapp(
                        (before + own)[i],
                        #[trigger] result@[i],
                    ),
        {
            result.push(zkapp_transaction(zkapp));
        }
    }
    proof {
        assert(blocks.take(blocks.len() as int) =~= blocks);
    }
    result
}

impl<UO, UM, II, IO> TransactionGenerators<UO, UM, II, IO> where
    UO: Fn(&UserCommandMetadata) -> Vec<coinbase_mesh::models::Operation>,
    UM: Fn(&UserCommandMetadata) -> Option<serde_json::Value>,
    II: Fn(&InternalCommandType, i32, i32, &String) -> String,
    IO: Fn(&InternalCommandMetadata) -> Vec<coinbase_mesh::models::Operation>,
 {
    /// Presents the user commands of a block, in order.
    pub fn user_transactions(&self, commands: &Vec<UserCommandMetadata>) -> (transactions: Vec<
        Transaction,
    >)
        requires
            self.total(),
        ensures
            transactions@.len() == commands@.len(),
            forall|i: int|
                0 <= i < transactions@.len() ==> self.presents_user(
                    commands@[i]@,
                    #[trigger] transactions@[i],
                ),
    {
        let mut transactions: Vec<Transaction> = Vec::new();
        let mut i: usize = 0;
        while i < commands.len()
            invariant
                self.total(),
                i <= commands.len(),
                transactions.len() == i,
                forall|j: int|
                    0 <= j < i ==> self.presents_user(commands@[j]@, #[trigger] transactions@[j]),
            decreases commands.len() - i,
        {
            transactions.push(self.user_command_transaction(&commands[i]));
            i = i + 1;
        }
        transactions
    }

    /// Presents the internal commands of a block, in order.
    pub fn internal_transactions(&self, commands: &Vec<InternalCommandMetadata>) -> (transactions:
        Vec<Transaction>)
        requires
            self.total(),
        ensures
            transactions@.len() == commands@.len(),
            forall|i: int|
                0 <= i < transactions@.len() ==> self.presents_internal(
                    commands@[i]@,
                    #[trigger] transactions@[i],
                ),
    {
        let mut transactions: Vec<Transaction> = Vec::new();
        let mut i: usize = 0;
        while i < commands.len()
            invariant
                self.total(),
                i <= commands.len(),
                transactions.len() == i,
                forall|j: int|
                    0 <= j < i ==> self.presents_internal(
                        commands@[j]@,
                        #[trigger] transactions@[j],
                    ),
            decreases commands.len() - i,
        {
            transactions.push(self.internal_command_transaction(&commands[i]));
            i = i + 1;
        }
        transactions
    }

    /// Whether `transactions` present the commands of a block of the archive: the internal
    /// commands, then the user commands, then the zkApp transactions, each in order.
    pub open spec fn presents_commands(
        &self,
        users: Seq<UserCommandMetadata>,
        internals: Seq<InternalCommandMetadata>,
        zkapps: Seq<ZkAppTransaction>,
        transactions: Seq<Transaction>,
    ) -> bool {
        let first_zkapp = internals.len() + users.len();
        &&& transactions.len() == first_zkapp + zkapps.len()
        &&& forall|i: int|
            0 <= i < internals.len() ==> self.presents_internal(
                internals[i]@,
                #[trigger] transactions[i],
            )
        &&& forall|i: int|
            internals.len() <= i < first_zkapp ==> self.presents_user(
                users[i - internals.len()]@,
                #[trigger] transactions[i],
            )
        &&& forall|i: int|
            first_zkapp <= i < transactions.len() ==> presents_zkapp(
                zkapps[i - first_zkapp],
                #[trigger] transactions[i],
            )
    }

    /// Answers a block request with what the archive holds of the block: its row, its parent's
    /// row, if there is one, and its commands. A block without a parent is its own.
    pub fn block_from_archive(
        &self,
        metadata: &BlockMetadata,
        parent: &Option<BlockMetadata>,
        user_commands: &Vec<UserCommandMetadata>,
        internal_commands: &Vec<InternalCommandMetadata>,
        zkapp_commands: Vec<ZkAppBlock>,
    ) -> (response: Result<BlockResponse, MinaMeshError>)
        requires
            self.total(),
        ensures
            match crate::text::parsed_i64(metadata.timestamp@) {
                Err(e) => response == Err::<BlockResponse, MinaMeshError>(
                    MinaMeshError::ParseInt(e),
                ),
                Ok(time) => {
                    &&& response matches Ok(r)
                    &&& r.other_transactions is None
                    &&& r.block matches Some(block)
                    &&& block.timestamp == time
                    &&& block.block_identifier.index == metadata.height
                    &&& block.block_identifier.hash == metadata.state_hash
                    &&& match *parent {
                        Some(p) => {
                            &&& block.parent_block_identifier.index == p.height
                            &&& block.parent_block_identifier.hash == p.state_hash
                        },
                        None => block.parent_block_identifier == block.block_identifier,
                    }
                    &&& crate::api::indexer_block::is_creator_metadata(
                        block.metadata,
                        metadata.creator@,
                    )
                    &&& self.presents_commands(
                        user_commands@,
                        internal_commands@,
                        zkapp_transactions(zkapp_commands@),
                        block.transactions@,
                    )
                },
            },
    {
        let timestamp = match parse_i64(metadata.timestamp.as_str()) {
            Ok(t) => t,
            Err(e) => {
                return Err(MinaMeshError::ParseInt(e));
            },
        };
        let block_identifier = BlockIdentifier::new(metadata.height, metadata.state_hash.clone());
        let parent_block_identifier = match parent {
            Some(p) => BlockIdentifier::new(p.height, p.state_hash.clone()),
            None => block_identifier.copy(),
        };
        let mut transactions = self.internal_transactions(internal_commands);
        let mut users = self.user_transactions(user_commands);
        let mut zkapps = zkapp_commands_to_transactions(zkapp_commands);
        transactions.append(&mut users);
        transactions.append(&mut zkapps);
        Ok(
            BlockResponse {
                block: Some(
                    Block {
                        block_identifier,
                        parent_block_identifier,
                        timestamp,
                        transactions,
                        metadata: creator_metadata(&metadata.creator),
                    },
                ),
                other_transactions: None,
            },
        )
    }
}

/// A block comes from the indexer wherever there is one: by its hash where the request names one,
/// else by its height, else the tip. It comes from the archive only where there is no indexer, and
/// fails only where there is neither.
pub proof fn indexer_comes_before_the_archive(
    mesh: MinaMesh,
    partial: PartialBlockIdentifier,
    route: Result<BlockRoute, MinaMeshError>,
)
    requires
        mesh.routes_block(partial, route),
    ensures
        mesh.indexer is Some <==> route matches Ok(BlockRoute::Indexer(_)),
        mesh.indexer is None && mesh.pg_pool is Some <==> route matches Ok(BlockRoute::Archive(_)),
        mesh.indexer is None && mesh.pg_pool is None <==> route is Err,
        route matches Ok(BlockRoute::Indexer(IndexerBlockQuery::Hash(h))) ==> partial.hash == Some(
            h,
        ),
        route matches Ok(BlockRoute::Indexer(IndexerBlockQuery::Height(n))) ==> partial.hash is None
            && partial.index == Some(n),
        route matches Ok(BlockRoute::Indexer(IndexerBlockQuery::Tip)) ==> partial.hash is None
            && partial.index is None,
        route matches Err(e) ==> {
            &&& e is Exception
            &&& e->Exception_0@ == "no archive database configured (indexer-only mode)"@
        },
        route matches Ok(BlockRoute::Archive(query)) ==> is_block_metadata_query(partial, query),
{
}

/// The archive is asked for what the request names, and for all of it: the hash and the height are
/// the query's parameters, in this order, and with neither it is asked for the best block. A height
/// alone waits for the greatest canonical height.
pub proof fn archive_is_asked_for_what_is_named(
    partial: PartialBlockIdentifier,
    query: BlockMetadataQuery,
)
    requires
        is_block_metadata_query(partial, query),
    ensures
        query matches BlockMetadataQuery::Height(n) ==> partial.hash is None && partial.index
            == Some(n),
        query matches BlockMetadataQuery::Ready(q) ==> {
            &&& partial.hash is None ==> partial.index is None
            &&& q.args@.len() == (if partial.hash is Some {
                1int
            } else {
                0
            }) + (if partial.index is Some {
                1int
            } else {
                0
            })
            &&& partial.hash matches Some(h) ==> q.args@[0] == SqlArg::Text(Some(h))
            &&& partial.index matches Some(n) ==> q.args@[1] == SqlArg::Integer(Some(n))
            &&& q.file@ == match (partial.hash, partial.index) {
                (Some(_), Some(_)) => "sql/queries/query_both.sql"@,
                (Some(_), None) => "sql/queries/query_hash.sql"@,
                _ => "sql/queries/query_best.sql"@,
            }
        },
{
}

/// The zkApp transactions of a list of blocks are those of its parts, one after the other, and
/// those of one block are all that it holds.
pub proof fn zkapp_transactions_are_those_of_all_blocks(
    some: Seq<ZkAppBlock>,
    more: Seq<ZkAppBlock>,
    block: ZkAppBlock,
)
    ensures
        zkapp_transactions(some + more) == zkapp_transactions(some) + zkapp_transactions(more),
        zkapp_transactions(seq![block]) == block.transactions@,
        zkapp_transactions(Seq::empty()).len() == 0,
    decreases more.len(),
{
    let one = seq![block];
    assert(one.drop_last() =~= Seq::empty());
    assert(zkapp_transactions(one.drop_last()) =~= Seq::empty());
    assert(zkapp_transactions(one) =~= block.transactions@);
    if more.len() > 0 {
        zkapp_transactions_are_those_of_all_blocks(some, more.drop_last(), block);
        assert((some + more).drop_last() =~= some + more.drop_last());
        assert(zkapp_transactions(some + more) =~= zkapp_transactions(some) + zkapp_transactions(
            more,
        ));
    } else {
        assert(some + more =~= some);
        assert(zkapp_transactions(some) + zkapp_transactions(more) =~= zkapp_transactions(some));
    }
}

/// The transaction of a zkApp transaction carries its hash and its operations as they are.
pub proof fn zkapp_transactions_are_handed_through(zkapp: ZkAppTransaction, transaction: Transaction)
    requires
        presents_zkapp(zkapp, transaction),
    ensures
        transaction.transaction_identifier.hash@ == zkapp.hash@,
        transaction.operations@ == zkapp.operations@,
        transaction.related_transactions is None,
        transaction.metadata is None,
{
}

impl<UO, UM, II, IO> TransactionGenerators<UO, UM, II, IO> where
    UO: Fn(&UserCommandMetadata) -> Vec<coinbase_mesh::models::Operation>,
    UM: Fn(&UserCommandMetadata) -> Option<serde_json::Value>,
    II: Fn(&InternalCommandType, i32, i32, &String) -> String,
    IO: Fn(&InternalCommandMetadata) -> Vec<coinbase_mesh::models::Operation>,
 {
    /// A block of the archive holds a transaction for every command, and no other: the internal
    /// commands come first, the user commands next, and the zkApp transactions last, each kind in
    /// its order.
    pub proof fn archive_block_holds_every_command_once(
        &self,
        users: Seq<UserCommandMetadata>,
        internals: Seq<InternalCommandMetadata>,
        zkapps: Seq<ZkAppTransaction>,
        transactions: Seq<Transaction>,
        k: int,
    )
        requires
            self.presents_commands(users, internals, zkapps, transactions),
        ensures
            transactions.len() == internals.len() + users.len() + zkapps.len(),
            0 <= k < internals.len() ==> self.presents_internal(internals[k]@, transactions[k]),
            0 <= k < users.len() ==> {
                let t = transactions[internals.len() + k];
                &&& self.presents_user(users[k]@, t)
                &&& t.transaction_identifier.hash@ == users[k].hash@
            },
            0 <= k < zkapps.len() ==> {
                let t = transactions[internals.len() + users.len() + k];
                &&& t.transaction_identifier.hash@ == zkapps[k].hash@
                &&& t.operations@ == zkapps[k].operations@
            },
    {
        if 0 <= k < users.len() {
            let t = transactions[internals.len() + k];
            assert(self.presents_user(users[k]@, t));
        }
        if 0 <= k < zkapps.len() {
            let t = transactions[internals.len() + users.len() + k];
            assert(presents_zkapp(zkapps[k], t));
        }
    }
}

/// Up to the greatest canonical height a block is looked for on the canonical chain, and nowhere
/// else; above it among the pending blocks, and nowhere else. The height is the only parameter.
pub proof fn heights_are_looked_for_on_one_chain(index: i64, max_height: i64, query: ArchiveQuery)
    requires
        call_ensures(height_query, (index, max_height), query),
    ensures
        query.file@ == "sql/queries/query_canonical.sql"@ || query.file@
            == "sql/queries/query_pending.sql"@,
        query.file@ == "sql/queries/query_canonical.sql"@ <==> index <= max_height,
        query.args@ == seq![SqlArg::Integer(Some(index))],
{
    reveal_strlit("sql/queries/query_canonical.sql");
    reveal_strlit("sql/queries/query_pending.sql");
    assert("sql/queries/query_canonical.sql"@.len() != "sql/queries/query_pending.sql"@.len());
}

/// The greatest canonical height is asked for without parameters.
pub proof fn greatest_height_needs_no_parameters(query: ArchiveQuery)
    requires
        call_ensures(max_canonical_height_query, (), query),
    ensures
        query.file@ == "sql/queries/max_canonical_height.sql"@,
        query.args@.len() == 0,
{
}

/// A parent is asked for exactly if the row has one, and by its key alone.
pub proof fn parents_are_asked_for_by_key(metadata: BlockMetadata, query: Option<ArchiveQuery>)
    requires
        call_ensures(BlockMetadata::parent_query, (&metadata,), query),
    ensures
        query is Some <==> metadata.parent_id is Some,
        query matches Some(q) ==> {
            &&& q.file@ == "sql/queries/query_id.sql"@
            &&& q.args@ == seq![SqlArg::Id(metadata.parent_id->0)]
        },
{
}

/// A block is missing exactly if nothing was found, and the error says what was asked for. What
/// was found is handed on as it is.
pub proof fn only_what_is_not_found_is_missing(
    found: Option<BlockMetadata>,
    partial: PartialBlockIdentifier,
    block: Result<BlockMetadata, MinaMeshError>,
)
    requires
        call_ensures(found_block, (found, &partial), block),
    ensures
        block is Err <==> found is None,
        block matches Ok(b) ==> found == Some(b),
        block matches Err(e) ==> {
            &&& e matches MinaMeshError::BlockMissing(index, hash)
            &&& index == partial.index
            &&& hash == partial.hash
        },
{
}

/// The commands of a block are asked for by the block's key, each kind by its own query, and
/// internal and zkApp commands in the default token.
pub proof fn commands_are_asked_for_by_block(
    mesh: MinaMesh,
    metadata: BlockMetadata,
    token: String,
    users: Result<ArchiveQuery, MinaMeshError>,
    internals: Result<ArchiveQuery, MinaMeshError>,
    zkapps: Result<ArchiveQuery, MinaMeshError>,
)
    requires
        call_ensures(MinaMesh::user_commands, (&mesh, &metadata), users),
        call_ensures(MinaMesh::internal_commands, (&mesh, &metadata, &token), internals),
        call_ensures(MinaMesh::zkapp_commands, (&mesh, &metadata, &token), zkapps),
    ensures
        mesh.pg_pool is Some <==> users is Ok,
        mesh.pg_pool is Some <==> internals is Ok,
        mesh.pg_pool is Some <==> zkapps is Ok,
        users matches Ok(q) ==> {
            &&& q.file@ == "sql/queries/user_commands.sql"@
            &&& q.args@ == seq![SqlArg::Id(metadata.id)]
        },
        internals matches Ok(q) ==> {
            &&& q.file@ == "sql/queries/internal_commands.sql"@
            &&& q.args@ == seq![SqlArg::Id(metadata.id), SqlArg::Text(Some(token))]
        },
        zkapps matches Ok(q) ==> {
            &&& q.file@ == "sql/queries/zkapp_commands.sql"@
            &&& q.args@ == seq![SqlArg::Id(metadata.id), SqlArg::Text(Some(token))]
        },
{
}

} // verus!
