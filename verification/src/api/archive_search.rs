//! A search that the archive serves.
//!
//! The archive keeps user commands, internal commands and zkApp commands apart. A search asks for
//! them in this order. Each answer decides what is asked for next: while the page is below its
//! limit, what is left of it, and once the page is full, a single row for the count that comes
//! with it.

use vstd::prelude::*;

use crate::api::block::zkapp_transaction;
use crate::api::search_transactions::{adjust_limit_and_offset, SearchTransactionsQueryParams};
use crate::archive::ArchiveQuery;
use crate::commands::TransactionGenerators;
use crate::error::MinaMeshError;
use crate::mesh::MinaMesh;
use crate::text::parse_i64_or_zero;
use crate::types::{
    text_or_empty, BlockIdentifier, BlockIdentifierView, BlockTransaction, InternalCommand,
    InternalCommandMetadata, InternalCommandType, SearchTransactionsRequest,
    SearchTransactionsResponse, UserCommand, UserCommandMetadata, ZkAppBlock, ZkAppTransaction,
};

verus! {

/// The identifier of the block of a row: zero and the empty text stand for what the row lacks.
pub open spec fn row_block(height: Option<i64>, hash: Option<Seq<char>>) -> BlockIdentifierView {
    BlockIdentifierView {
        index: match height {
            Some(h) => h as int,
            None => 0,
        },
        hash: crate::types::or_empty(hash),
    }
}

fn block_of_row(height: Option<i64>, hash: &Option<String>) -> (id: BlockIdentifier)
    ensures
        id@ == row_block(height, hash.deep_view()),
{
    let index: i64 = match height {
        Some(h) => h,
        None => 0,
    };
    BlockIdentifier::new(index, text_or_empty(hash))
}

/// The time of a row of a user or internal command, if it is asked for and the row has one. A
/// text that is no number counts as zero.
pub open spec fn row_time(timestamp: Option<Seq<char>>, include_timestamp: bool) -> Option<i64> {
    match timestamp {
        Some(text) => if include_timestamp {
            Some(crate::text::i64_or_zero(text) as i64)
        } else {
            None
        },
        None => None,
    }
}

/// Sets the time of each transaction from the text of its row, if it is asked for, and clears it
/// if not.
pub fn map_to_block_transactions(
    commands: Vec<(BlockTransaction, Option<String>)>,
    include_timestamp: bool,
) -> (transactions: Vec<BlockTransaction>)
    ensures
        transactions@.len() == commands@.len(),
        forall|i: int|
            0 <= i < transactions@.len() ==> {
                &&& (#[trigger] transactions@[i]).block_identifier
                    == commands@[i].0.block_identifier
                &&& transactions@[i].transaction == commands@[i].0.transaction
                &&& transactions@[i].timestamp == row_time(
                    commands@[i].1.deep_view(),
                    include_timestamp,
                )
            },
{
    let ghost rows = commands@;
    let mut transactions: Vec<BlockTransaction> = Vec::new();
    for row in it: commands
        invariant
            it.seq() == rows,
            transactions@.len() == it.index(),
            forall|i: int|
                0 <= i < transactions@.len() ==> {
                    &&& (#[trigger] transactions@[i]).block_identifier == rows[i].0.block_identifier
                    &&& transactions@[i].transaction == rows[i].0.transaction
                    &&& transactions@[i].timestamp == row_time(
                        rows[i].1.deep_view(),
                        include_timestamp,
                    )
                },
    {
        let (found, text) = row;
        let timestamp: Option<i64> = match text {
            Some(t) => if include_timestamp {
                Some(parse_i64_or_zero(t.as_str()))
            } else {
                None
            },
            None => None,
        };
        transactions.push(
            BlockTransaction {
                block_identifier: found.block_identifier,
                transaction: found.transaction,
                timestamp,
            },
        );
    }
    transactions
}

impl<UO, UM, II, IO> TransactionGenerators<UO, UM, II, IO> where
    UO: Fn(&UserCommandMetadata) -> Vec<coinbase_mesh::models::Operation>,
    UM: Fn(&UserCommandMetadata) -> Option<serde_json::Value>,
    II: Fn(&InternalCommandType, i32, i32, &String) -> String,
    IO: Fn(&InternalCommandMetadata) -> Vec<coinbase_mesh::models::Operation>,
 {
    /// Whether `found` presents a user command of a search and its block.
    pub open spec fn presents_user_row(&self, row: UserCommand, found: BlockTransaction) -> bool {
        &&& found.block_identifier@ == row_block(row.height, row.state_hash.deep_view())
        &&& self.presents_user(row.command@, found.transaction)
    }

    /// Whether `found` presents an internal command of a search and its block.
    pub open spec fn presents_internal_row(
        &self,
        row: InternalCommand,
        found: BlockTransaction,
    ) -> bool {
        &&& found.block_identifier@ == row_block(row.height, row.state_hash.deep_view())
        &&& self.presents_internal(row.command@, found.transaction)
    }

    /// Presents a user command that a search found. It carries no time yet.
    pub fn user_block_transaction(&self, row: &UserCommand) -> (found: BlockTransaction)
        requires
            self.total(),
        ensures
            self.presents_user_row(*row, found),
            found.timestamp is None,
    {
        BlockTransaction {
            block_identifier: block_of_row(row.height, &row.state_hash),
            transaction: self.user_command_transaction(&row.command),
            timestamp: None,
        }
    }

    /// Presents an internal command that a search found. It carries no time yet.
    pub fn internal_block_transaction(&self, row: &InternalCommand) -> (found: BlockTransaction)
        requires
            self.total(),
        ensures
            self.presents_internal_row(*row, found),
            found.timestamp is None,
    {
        BlockTransaction {
            block_identifier: block_of_row(row.height, &row.state_hash),
            transaction: self.internal_command_transaction(&row.command),
            timestamp: None,
        }
    }
}

/// The zkApp transactions of these blocks, each with its block, in order.
pub open spec fn zkapp_entries(blocks: Seq<ZkAppBlock>) -> Seq<(ZkAppBlock, ZkAppTransaction)>
    decreases blocks.len(),
{
    if blocks.len() == 0 {
        Seq::empty()
    } else {
        zkapp_entries(blocks.drop_last()) + blocks.last().transactions@.map_values(
            |t: ZkAppTransaction| (blocks.last(), t),
        )
    }
}

/// The time of a zkApp transaction, if it is asked for. A block without a time, or with a text
/// that is no number, counts as zero.
pub open spec fn zkapp_time(timestamp: Option<Seq<char>>, include_timestamp: bool) -> Option<i64> {
    if include_timestamp {
        Some(crate::text::i64_or_zero(crate::types::or_empty(timestamp)) as i64)
    } else {
        None
    }
}

/// Whether `found` presents a zkApp transaction of a search and its block.
pub open spec fn presents_zkapp_entry(
    entry: (ZkAppBlock, ZkAppTransaction),
    include_timestamp: bool,
    found: BlockTransaction,
) -> bool {
    &&& found.block_identifier@ == row_block(
        entry.0.block_index,
        entry.0.block_hash.deep_view(),
    )
    &&& crate::api::block::presents_zkapp(entry.1, found.transaction)
    &&& found.timestamp == zkapp_time(entry.0.timestamp.deep_view(), include_timestamp)
}

/// Presents the zkApp transactions that a search found, in order.
pub fn zkapp_commands_to_block_transactions(
    commands: Vec<ZkAppBlock>,
    include_timestamp: bool,
) -> (transactions: Vec<BlockTransaction>)
    ensures
        transactions@.len() == zkapp_entries(commands@).len(),
        forall|i: int|
            0 <= i < transactions@.len() ==> presents_zkapp_entry(
                zkapp_entries(commands@)[i],
                include_timestamp,
                #[trigger] transactions@[i],
            ),
{
    let ghost blocks = commands@;
    let mut result: Vec<BlockTransaction> = Vec::new();
    for block in it: commands
        invariant
            it.seq() == blocks,
            result@.len() == zkapp_entries(blocks.take(it.index() as int)).len(),
            forall|i: int|
                0 <= i < result@.len() ==> presents_zkapp_entry(
                    zkapp_entries(blocks.take(it.index() as int))[i],
                    include_timestamp,
                    #[trigger] result@[i],
                ),
    {
        let ghost whole = block;
        let ghost before = zkapp_entries(blocks.take(it.index() as int));
        let ghost own = block.transactions@.map_values(|t: ZkAppTransaction| (whole, t));
        proof {
            assert(blocks.take(it.index() + 1).drop_last() =~= blocks.take(it.index() as int));
            assert(zkapp_entries(blocks.take(it.index() + 1)) =~= before + own);
        }
        let timestamp: Option<i64> = if include_timestamp {
            Some(parse_i64_or_zero(text_or_empty(&block.timestamp).as_str()))
        } else {
            None
        };
        let ZkAppBlock { block_index, block_hash, timestamp: _, transactions } = block;
        let ghost members = transactions@;
        for zkapp in inner: transactions
            invariant
                inner.seq() == members,
                block_index == whole.block_index,
                block_hash == whole.block_hash,
                timestamp == zkapp_time(whole.timestamp.deep_view(), include_timestamp),
                own == members.map_values(|t: ZkAppTransaction| (whole, t)),
                result@.len() == before.len() + inner.index(),
                forall|i: int|
                    0 <= i < result@.len() ==> presents_zkapp_entry(
                        (before + own)[i],
                        include_timestamp,
                        #[trigger] result@[i],
                    ),
        {
            result.push(
                BlockTransaction {
                    block_identifier: block_of_row(block_index, &block_hash),
                    transaction: zkapp_transaction(zkapp),
                    timestamp,
                },
            );
        }
    }
    proof {
        assert(blocks.take(blocks.len() as int) =~= blocks);
    }
    result
}

/// The count that comes with the first of a list of rows: how many rows the search matches in all.
/// It is zero where there is no row, or the row has none.
pub open spec fn first_count(counts: Seq<Option<i64>>) -> int {
    if counts.len() == 0 {
        0
    } else {
        match counts[0] {
            Some(count) => count as int,
            None => 0,
        }
    }
}

/// The counts that come with user commands.
pub open spec fn user_counts(rows: Seq<UserCommand>) -> Seq<Option<i64>> {
    rows.map_values(|row: UserCommand| row.total_count)
}

/// The counts that come with internal commands.
pub open spec fn internal_counts(rows: Seq<InternalCommand>) -> Seq<Option<i64>> {
    rows.map_values(|row: InternalCommand| row.total_count)
}

/// What the archive found of zkApp commands.
#[derive(Debug)]
pub struct ZkAppPage {
    /// The count that comes with each row.
    pub total_counts: Vec<Option<i64>>,
    /// The transactions that the rows amount to, by block.
    pub blocks: Vec<ZkAppBlock>,
}

/// Where a search stands in its page: the offset and the limit of what is left of it, and whether
/// more transactions are collected or only counted.
pub struct Cursor {
    pub offset: int,
    pub limit: int,
    pub collects: bool,
}

impl Cursor {
    /// The next standing, when the last answer added `added` transactions: while they are fewer
    /// than what was left of the page, the rest of it is asked for; once the page is full, nothing
    /// but counts.
    pub open spec fn advance(self, added: int) -> Cursor {
        if self.collects && self.limit > added {
            Cursor {
                offset: crate::api::search_transactions::rest(self.offset, added),
                limit: crate::api::search_transactions::rest(self.limit, added),
                collects: true,
            }
        } else {
            Cursor { collects: false, ..self }
        }
    }

    /// The offset and the limit of the next query. A single row suffices for its count.
    pub open spec fn page(self) -> (int, int) {
        if self.collects {
            (self.offset, self.limit)
        } else {
            (0, 1)
        }
    }
}

/// A search before its first answer: the user commands are asked for.
#[derive(Debug)]
pub struct UserSearch {
    pub params: SearchTransactionsQueryParams,
    pub include_timestamp: bool,
    pub offset: i64,
    pub limit: i64,
}

/// What a search has found so far.
#[derive(Debug)]
pub struct SearchProgress {
    pub params: SearchTransactionsQueryParams,
    pub include_timestamp: bool,
    /// The offset that the request asks for.
    pub original_offset: i64,
    /// The offset of what is left of the page.
    pub offset: i64,
    /// The limit of what is left of the page.
    pub limit: i64,
    /// Whether the next answer adds transactions, or only its count.
    pub collects: bool,
    pub transactions: Vec<BlockTransaction>,
    pub total_count: i64,
}

/// A search whose user commands are known: the internal commands are asked for.
#[derive(Debug)]
pub struct InternalSearch {
    pub progress: SearchProgress,
}

/// A search whose user and internal commands are known: the zkApp commands are asked for.
#[derive(Debug)]
pub struct ZkAppSearch {
    pub progress: SearchProgress,
}

impl UserSearch {
    /// Where the search stands.
    pub open spec fn cursor(self) -> Cursor {
        Cursor { offset: self.offset as int, limit: self.limit as int, collects: true }
    }

    /// Whether the sums over an answer fit.
    pub open spec fn fits(self, rows: Seq<UserCommand>) -> bool {
        rows.len() <= i64::MAX
    }

    /// Says whether the sums over an answer fit.
    pub fn check_fits(&self, rows: &Vec<UserCommand>) -> (fits: bool)
        ensures
            fits == self.fits(rows@),
    {
        rows.len() as u128 <= i64::MAX as u128
    }

    /// Begins a search for what a request asks for. The first hundred transactions are its page
    /// unless it says otherwise.
    pub fn new(params: SearchTransactionsQueryParams, req: &SearchTransactionsRequest) -> (search:
        UserSearch)
        ensures
            search.params == params,
            search.include_timestamp == match req.include_timestamp {
                Some(wanted) => wanted,
                None => false,
            },
            search.offset == match req.offset {
                Some(offset) => offset,
                None => 0,
            },
            search.limit == match req.limit {
                Some(limit) => limit,
                None => 100,
            },
    {
        UserSearch {
            params,
            include_timestamp: req.include_timestamp.unwrap_or(false),
            offset: req.offset.unwrap_or(0),
            limit: req.limit.unwrap_or(100),
        }
    }

    /// Asks for the user commands of the page.
    pub fn query(&self, mesh: &MinaMesh) -> (query: Result<ArchiveQuery, MinaMeshError>)
        ensures
            mesh.asks_archive(
                query,
                mesh.user_search_file(),
                self.params.search_args(self.offset, self.limit),
            ),
    {
        mesh.fetch_user_commands(&self.params, self.offset, self.limit)
    }

    /// Takes the user commands that were found.
    pub fn found<UO, UM, II, IO>(
        self,
        rows: &Vec<UserCommand>,
        generators: &TransactionGenerators<UO, UM, II, IO>,
    ) -> (next: InternalSearch) where
        UO: Fn(&UserCommandMetadata) -> Vec<coinbase_mesh::models::Operation>,
        UM: Fn(&UserCommandMetadata) -> Option<serde_json::Value>,
        II: Fn(&InternalCommandType, i32, i32, &String) -> String,
        IO: Fn(&InternalCommandMetadata) -> Vec<coinbase_mesh::models::Operation>,

        requires
            generators.total(),
            self.fits(rows@),
        ensures
            generators.takes_users(self, rows@, next),
    {
        let total_count: i64 = if rows.len() == 0 {
            0
        } else {
            rows[0].total_count.unwrap_or(0)
        };
        let mut found: Vec<(BlockTransaction, Option<String>)> = Vec::new();
        let mut i: usize = 0;
        while i < rows.len()
            invariant
                generators.total(),
                i <= rows.len(),
                found.len() == i,
                forall|j: int|
                    0 <= j < i ==> {
                        &&& generators.presents_user_row(rows@[j], (#[trigger] found@[j]).0)
                        &&& found@[j].1 == rows@[j].timestamp
                    },
            decreases rows.len() - i,
        {
            let row = &rows[i];
            let timestamp = crate::types::copy_text(&row.timestamp);
            found.push((generators.user_block_transaction(row), timestamp));
            i = i + 1;
        }
        let transactions = map_to_block_transactions(found, self.include_timestamp);
        let retrieved: i64 = transactions.len() as i64;
        let mut offset = self.offset;
        let mut limit = self.limit;
        let mut collects = false;
        if limit > retrieved {
            let (rest_of_offset, rest_of_limit) = adjust_limit_and_offset(limit, offset, retrieved);
            offset = rest_of_offset;
            limit = rest_of_limit;
            collects = true;
        }
        InternalSearch {
            progress: SearchProgress {
                params: self.params,
                include_timestamp: self.include_timestamp,
                original_offset: self.offset,
                offset,
                limit,
                collects,
                transactions,
                total_count,
            },
        }
    }
}

impl<UO, UM, II, IO> TransactionGenerators<UO, UM, II, IO> where
    UO: Fn(&UserCommandMetadata) -> Vec<coinbase_mesh::models::Operation>,
    UM: Fn(&UserCommandMetadata) -> Option<serde_json::Value>,
    II: Fn(&InternalCommandType, i32, i32, &String) -> String,
    IO: Fn(&InternalCommandMetadata) -> Vec<coinbase_mesh::models::Operation>,
 {
    /// Whether `found` presents user commands of a search, in order and with their times.
    pub open spec fn presents_user_rows(
        &self,
        rows: Seq<UserCommand>,
        include_timestamp: bool,
        found: Seq<BlockTransaction>,
    ) -> bool {
        &&& found.len() == rows.len()
        &&& forall|i: int|
            0 <= i < found.len() ==> {
                &&& self.presents_user_row(rows[i], #[trigger] found[i])
                &&& found[i].timestamp == row_time(rows[i].timestamp.deep_view(), include_timestamp)
            }
    }

    /// Whether `found` presents internal commands of a search, in order and with their times.
    pub open spec fn presents_internal_rows(
        &self,
        rows: Seq<InternalCommand>,
        include_timestamp: bool,
        found: Seq<BlockTransaction>,
    ) -> bool {
        &&& found.len() == rows.len()
        &&& forall|i: int|
            0 <= i < found.len() ==> {
                &&& self.presents_internal_row(rows[i], #[trigger] found[i])
                &&& found[i].timestamp == row_time(rows[i].timestamp.deep_view(), include_timestamp)
            }
    }

    /// How a search goes on from its user commands: it holds them, and stands behind them.
    pub open spec fn takes_users(
        &self,
        search: UserSearch,
        rows: Seq<UserCommand>,
        next: InternalSearch,
    ) -> bool {
        &&& next.progress.params == search.params
        &&& next.progress.include_timestamp == search.include_timestamp
        &&& next.progress.original_offset == search.offset
        &&& next.progress.total_count == first_count(user_counts(rows))
        &&& self.presents_user_rows(
            rows,
            search.include_timestamp,
            next.progress.transactions@,
        )
        &&& next.progress.cursor() == search.cursor().advance(rows.len() as int)
    }

    /// How a search goes on from its internal commands: they stand behind what it held, unless it
    /// only counts them, and their count is added.
    pub open spec fn takes_internals(
        &self,
        search: InternalSearch,
        rows: Seq<InternalCommand>,
        next: ZkAppSearch,
    ) -> bool {
        let before = search.progress.transactions@;
        let after = next.progress.transactions@;
        &&& next.progress.params == search.progress.params
        &&& next.progress.include_timestamp == search.progress.include_timestamp
        &&& next.progress.original_offset == search.progress.original_offset
        &&& next.progress.total_count == search.progress.total_count + first_count(
            internal_counts(rows),
        )
        &&& !search.progress.collects ==> after == before
        &&& search.progress.collects ==> {
            &&& before.len() <= after.len()
            &&& after.take(before.len() as int) == before
            &&& self.presents_internal_rows(
                rows,
                search.progress.include_timestamp,
                after.skip(before.len() as int),
            )
        }
        &&& next.progress.cursor() == search.progress.cursor().advance(
            added(search.progress.collects, rows.len()) as int,
        )
    }

    /// A whole search: its answer counts the matches of all three kinds, and gives the user
    /// commands, the internal commands and the zkApp transactions that were asked for, in this
    /// order.
    pub proof fn search_gives_all_kinds_in_order(
        &self,
        search: UserSearch,
        users: Seq<UserCommand>,
        second: InternalSearch,
        internals: Seq<InternalCommand>,
        third: ZkAppSearch,
        page: ZkAppPage,
        response: SearchTransactionsResponse,
    )
        requires
            self.takes_users(search, users, second),
            self.takes_internals(second, internals, third),
            third.answers(page, response),
        ensures
            response.total_count == first_count(user_counts(users)) + first_count(
                internal_counts(internals),
            ) + first_count(page.total_counts@),
            ({
                let given = response.transactions@;
                let u = users.len() as int;
                let i = added(second.progress.collects, internals.len()) as int;
                let z = added(third.progress.collects, zkapp_entries(page.blocks@).len()) as int;
                &&& given.len() == u + i + z
                &&& self.presents_user_rows(users, search.include_timestamp, given.take(u))
                &&& second.progress.collects ==> self.presents_internal_rows(
                    internals,
                    search.include_timestamp,
                    given.subrange(u, u + i),
                )
                &&& forall|k: int|
                    u + i <= k < given.len() ==> presents_zkapp_entry(
                        zkapp_entries(page.blocks@)[k - u - i],
                        search.include_timestamp,
                        #[trigger] given[k],
                    )
                &&& response.next_offset == if search.offset + given.len() < response.total_count {
                    Some((search.offset + given.len()) as i64)
                } else {
                    None
                }
            }),
    {
        let given = response.transactions@;
        let u = users.len() as int;
        let i = added(second.progress.collects, internals.len()) as int;
        let held = third.progress.transactions@;
        if second.progress.collects {
            assert(held.skip(u).len() == internals.len());
            assert(held.take(u) == second.progress.transactions@);
            assert(given.subrange(u, u + i) =~= held.skip(u));
        }
        assert(held.len() == u + i);
        assert(held =~= given.take(u + i));
        assert(given.take(u) =~= second.progress.transactions@) by {
            assert forall|k: int| 0 <= k < u implies given[k] == second.progress.transactions@[k] by {
                assert(given.take(u + i)[k] == given[k]);
                if second.progress.collects {
                    assert(held.take(u)[k] == held[k]);
                }
            }
        }
    }

    /// A page that is below its limit goes on: the zkApp commands are collected exactly if the
    /// user and internal commands leave room in the page, and then as many are asked for as there
    /// is room for.
    pub proof fn page_below_its_limit_goes_on(
        &self,
        search: UserSearch,
        users: Seq<UserCommand>,
        second: InternalSearch,
        internals: Seq<InternalCommand>,
        third: ZkAppSearch,
    )
        requires
            self.takes_users(search, users, second),
            self.takes_internals(second, internals, third),
        ensures
            second.progress.collects <==> search.limit > second.progress.transactions@.len(),
            second.progress.collects ==> second.progress.cursor().page().1 == search.limit
                - second.progress.transactions@.len(),
            third.progress.collects <==> search.limit > third.progress.transactions@.len(),
            third.progress.collects ==> third.progress.cursor().page().1 == search.limit
                - third.progress.transactions@.len(),
    {
        let held = second.progress.transactions@.len() as int;
        if second.progress.collects {
            assert(third.progress.transactions@.skip(held).len() == internals.len());
        }
    }

    /// A search answers with no more transactions than its limit, if the archive never gives more
    /// than it is asked for.
    pub proof fn search_stays_within_its_limit(
        &self,
        search: UserSearch,
        users: Seq<UserCommand>,
        second: InternalSearch,
        internals: Seq<InternalCommand>,
        third: ZkAppSearch,
        page: ZkAppPage,
        response: SearchTransactionsResponse,
    )
        requires
            self.takes_users(search, users, second),
            self.takes_internals(second, internals, third),
            third.answers(page, response),
            0 <= search.limit,
            users.len() <= search.cursor().page().1,
            internals.len() <= second.progress.cursor().page().1,
            zkapp_entries(page.blocks@).len() <= third.progress.cursor().page().1,
        ensures
            response.transactions@.len() <= search.limit,
    {
        self.search_gives_all_kinds_in_order(
            search,
            users,
            second,
            internals,
            third,
            page,
            response,
        );
    }
}

impl SearchProgress {
    /// Where the search stands.
    pub open spec fn cursor(self) -> Cursor {
        Cursor {
            offset: self.offset as int,
            limit: self.limit as int,
            collects: self.collects,
        }
    }

    /// The offset and the limit of the next query.
    pub fn page(&self) -> (page: (i64, i64))
        ensures
            page.0 == self.cursor().page().0,
            page.1 == self.cursor().page().1,
    {
        if self.collects {
            (self.offset, self.limit)
        } else {
            (0, 1)
        }
    }

    /// Whether the sums over an answer with `count` matches and `added` transactions fit.
    pub open spec fn fits(self, count: int, added: int) -> bool {
        &&& i64::MIN <= self.total_count + count <= i64::MAX
        &&& self.transactions@.len() + added <= i64::MAX
    }
}

/// What an answer with `n` transactions adds to a search: all of them, or, where they are only
/// counted, none.
pub open spec fn added(collects: bool, n: nat) -> nat {
    if collects {
        n
    } else {
        0
    }
}

impl InternalSearch {
    /// Whether the sums over an answer fit.
    pub open spec fn fits(self, rows: Seq<InternalCommand>) -> bool {
        self.progress.fits(
            first_count(internal_counts(rows)),
            added(self.progress.collects, rows.len()) as int,
        )
    }

    /// Says whether the sums over an answer fit.
    pub fn check_fits(&self, rows: &Vec<InternalCommand>) -> (fits: bool)
        ensures
            fits == self.fits(rows@),
    {
        let count: i64 = if rows.len() == 0 {
            0
        } else {
            rows[0].total_count.unwrap_or(0)
        };
        let more: usize = if self.progress.collects {
            rows.len()
        } else {
            0
        };
        self.progress.check_fits(count, more)
    }

    /// Asks for the internal commands of what is left of the page, or for one of them for its count.
    pub fn query(&self, mesh: &MinaMesh) -> (query: Result<ArchiveQuery, MinaMeshError>)
        ensures
            mesh.asks_archive(
                query,
                mesh.internal_search_file(),
                self.progress.params.search_args(
                    self.progress.cursor().page().0 as i64,
                    self.progress.cursor().page().1 as i64,
                ),
            ),
    {
        let (offset, limit) = self.progress.page();
        mesh.fetch_internal_commands(&self.progress.params, offset, limit)
    }

    /// Takes the internal commands that were found.
    pub fn found<UO, UM, II, IO>(
        self,
        rows: &Vec<InternalCommand>,
        generators: &TransactionGenerators<UO, UM, II, IO>,
    ) -> (next: ZkAppSearch) where
        UO: Fn(&UserCommandMetadata) -> Vec<coinbase_mesh::models::Operation>,
        UM: Fn(&UserCommandMetadata) -> Option<serde_json::Value>,
        II: Fn(&InternalCommandType, i32, i32, &String) -> String,
        IO: Fn(&InternalCommandMetadata) -> Vec<coinbase_mesh::models::Operation>,

        requires
            generators.total(),
            self.fits(rows@),
        ensures
            generators.takes_internals(self, rows@, next),
    {
        let progress = self.progress;
        let ghost before = progress.transactions@;
        let count: i64 = if rows.len() == 0 {
            0
        } else {
            rows[0].total_count.unwrap_or(0)
        };
        let total_count: i64 = progress.total_count + count;
        let mut transactions = progress.transactions;
        let mut retrieved: i64 = 0;
        if progress.collects {
            let mut found: Vec<(BlockTransaction, Option<String>)> = Vec::new();
            let mut i: usize = 0;
            while i < rows.len()
                invariant
                    generators.total(),
                    i <= rows.len(),
                    found.len() == i,
                    forall|j: int|
                        0 <= j < i ==> {
                            &&& generators.presents_internal_row(rows@[j], (#[trigger] found@[j]).0)
                            &&& found@[j].1 == rows@[j].timestamp
                        },
                decreases rows.len() - i,
            {
                let row = &rows[i];
                let timestamp = crate::types::copy_text(&row.timestamp);
                found.push((generators.internal_block_transaction(row), timestamp));
                i = i + 1;
            }
            let mut more = map_to_block_transactions(found, progress.include_timestamp);
            retrieved = more.len() as i64;
            let ghost own = more@;
            transactions.append(&mut more);
            proof {
                assert(transactions@.take(before.len() as int) =~= before);
                assert(transactions@.skip(before.len() as int) =~= own);
            }
        }
        let mut offset = progress.offset;
        let mut limit = progress.limit;
        let mut collects = false;
        if progress.collects && limit > retrieved {
            let (rest_of_offset, rest_of_limit) = adjust_limit_and_offset(limit, offset, retrieved);
            offset = rest_of_offset;
            limit = rest_of_limit;
            collects = true;
        }
        ZkAppSearch {
            progress: SearchProgress {
                params: progress.params,
                include_timestamp: progress.include_timestamp,
                original_offset: progress.original_offset,
                offset,
                limit,
                collects,
                transactions,
                total_count,
            },
        }
    }
}

impl SearchProgress {
    fn check_fits(&self, count: i64, more: usize) -> (fits: bool)
        ensures
            fits == self.fits(count as int, more as int),
    {
        let sum: u128 = self.transactions.len() as u128 + more as u128;
        self.total_count.checked_add(count).is_some() && sum <= i64::MAX as u128
    }
}

impl ZkAppSearch {
    /// Whether the sums over an answer fit.
    pub open spec fn fits(self, page: ZkAppPage) -> bool {
        let more = added(self.progress.collects, zkapp_entries(page.blocks@).len());
        &&& self.progress.fits(first_count(page.total_counts@), more as int)
        &&& self.progress.original_offset + self.progress.transactions@.len() + more <= i64::MAX
    }

    /// Whether `response` answers the search, once its zkApp commands are known: it gives what has
    /// been found, and, where the matches go on behind it, the offset at which they do.
    pub open spec fn answers(self, page: ZkAppPage, response: SearchTransactionsResponse) -> bool {
        let n = self.progress.transactions@.len() as int;
        let end = self.progress.original_offset + response.transactions@.len();
        &&& response.total_count == self.progress.total_count + first_count(page.total_counts@)
        &&& n <= response.transactions@.len()
        &&& response.transactions@.take(n) == self.progress.transactions@
        &&& response.transactions@.len() == n + added(
            self.progress.collects,
            zkapp_entries(page.blocks@).len(),
        )
        &&& forall|i: int|
            n <= i < response.transactions@.len() ==> presents_zkapp_entry(
                zkapp_entries(page.blocks@)[i - n],
                self.progress.include_timestamp,
                #[trigger] response.transactions@[i],
            )
        &&& response.next_offset == if end < response.total_count {
            Some(end as i64)
        } else {
            None
        }
    }

    /// Says whether the sums over an answer fit.
    pub fn check_fits(&self, page: &ZkAppPage) -> (fits: bool)
        ensures
            fits == self.fits(*page),
    {
        let count: i64 = if page.total_counts.len() == 0 {
            0
        } else {
            page.total_counts[0].unwrap_or(0)
        };
        let mut more: u128 = 0;
        if self.progress.collects {
            let mut i: usize = 0;
            while i < page.blocks.len()
                invariant
                    i <= page.blocks.len(),
                    more == zkapp_entries(page.blocks@.take(i as int)).len(),
                    more <= i * usize::MAX,
                decreases page.blocks.len() - i,
            {
                let ghost blocks = page.blocks@;
                proof {
                    assert(blocks.take(i + 1).drop_last() =~= blocks.take(i as int));
                    assert(i * usize::MAX + usize::MAX == (i + 1) * usize::MAX)
                        by (nonlinear_arith);
                    assert((i + 1) * usize::MAX <= usize::MAX * usize::MAX) by (nonlinear_arith)
                        requires
                            i + 1 <= usize::MAX,
                    ;
                    assert(usize::MAX * usize::MAX <= u128::MAX) by (nonlinear_arith)
                        requires
                            usize::MAX <= 0xffff_ffff_ffff_ffff,
                    ;
                }
                more = more + page.blocks[i].transactions.len() as u128;
                i = i + 1;
            }
            proof {
                assert(page.blocks@.take(i as int) =~= page.blocks@);
            }
        }
        if more > i64::MAX as u128 {
            return false;
        }
        let sum: u128 = self.progress.transactions.len() as u128 + more;
        if sum > i64::MAX as u128 {
            return false;
        }
        let end: i128 = self.progress.original_offset as i128 + sum as i128;
        self.progress.total_count.checked_add(count).is_some() && end <= i64::MAX as i128
    }

    /// Asks for the zkApp commands of what is left of the page, or for one of them for its count.
    pub fn query(&self, mesh: &MinaMesh) -> (query: Result<ArchiveQuery, MinaMeshError>)
        ensures
            mesh.asks_archive(
                query,
                mesh.zkapp_search_file(),
                self.progress.params.search_args(
                    self.progress.cursor().page().0 as i64,
                    self.progress.cursor().page().1 as i64,
                ),
            ),
    {
        let (offset, limit) = self.progress.page();
        mesh.fetch_zkapp_commands(&self.progress.params, offset, limit)
    }

    /// Takes the zkApp commands that were found, and answers the search.
    pub fn found(self, page: ZkAppPage) -> (response: SearchTransactionsResponse)
        requires
            self.fits(page),
        ensures
            self.answers(page, response),
    {
        let progress = self.progress;
        let ghost before = progress.transactions@;
        let count: i64 = if page.total_counts.len() == 0 {
            0
        } else {
            page.total_counts[0].unwrap_or(0)
        };
        let total_count: i64 = progress.total_count + count;
        let mut transactions = progress.transactions;
        if progress.collects {
            let mut more = zkapp_commands_to_block_transactions(
                page.blocks,
                progress.include_timestamp,
            );
            transactions.append(&mut more);
        }
        proof {
            assert(transactions@.take(before.len() as int) =~= before);
        }
        let end: i64 = progress.original_offset + transactions.len() as i64;
        let next_offset = if end < total_count {
            Some(end)
        } else {
            None
        };
        SearchTransactionsResponse { transactions, total_count, next_offset }
    }
}

/// A search whose page is full goes on counting: it asks for single rows from then on.
pub proof fn counting_goes_on(cursor: Cursor, more: int)
    requires
        !cursor.collects,
    ensures
        cursor.page() == (0int, 1int),
        cursor.advance(more) == cursor,
{
}

/// The block of a row is the one that it names; zero and the empty text stand in for what it does
/// not name.
pub proof fn rows_name_their_block(height: Option<i64>, hash: Option<Seq<char>>)
    ensures
        height matches Some(h) ==> row_block(height, hash).index == h,
        height is None ==> row_block(height, hash).index == 0,
        hash matches Some(h) ==> row_block(height, hash).hash == h,
        hash is None ==> row_block(height, hash).hash.len() == 0,
{
}

/// A time is given only where it is asked for, and is then the number that the row's text spells,
/// or zero where that spells none. A row without a text has no time, but for a zkApp transaction,
/// whose time is then zero.
pub proof fn times_are_given_where_they_are_asked_for(text: Seq<char>, timestamp: Option<Seq<char>>)
    ensures
        row_time(timestamp, false) is None,
        zkapp_time(timestamp, false) is None,
        row_time(None, true) is None,
        zkapp_time(None, true) == Some(0i64),
        crate::text::parsed_i64(text) matches Ok(n) ==> {
            &&& row_time(Some(text), true) == Some(n as i64)
            &&& zkapp_time(Some(text), true) == Some(n as i64)
        },
        crate::text::parsed_i64(text) is Err ==> {
            &&& row_time(Some(text), true) == Some(0i64)
            &&& zkapp_time(Some(text), true) == Some(0i64)
        },
{
    crate::text::i64_begins_with_a_digit_or_a_sign('0');
}

/// The count of a kind is the one that comes with its first row, and zero where there is none.
pub proof fn first_row_brings_the_count(
    users: Seq<UserCommand>,
    internals: Seq<InternalCommand>,
    counts: Seq<Option<i64>>,
    n: i64,
)
    ensures
        users.len() == 0 ==> first_count(user_counts(users)) == 0,
        users.len() > 0 && users[0].total_count == Some(n) ==> first_count(user_counts(users)) == n,
        users.len() > 0 && users[0].total_count is None ==> first_count(user_counts(users)) == 0,
        internals.len() == 0 ==> first_count(internal_counts(internals)) == 0,
        internals.len() > 0 && internals[0].total_count == Some(n) ==> first_count(
            internal_counts(internals),
        ) == n,
        internals.len() > 0 && internals[0].total_count is None ==> first_count(
            internal_counts(internals),
        ) == 0,
        counts.len() == 0 ==> first_count(counts) == 0,
        counts.len() > 0 && counts[0] == Some(n) ==> first_count(counts) == n,
        counts.len() > 0 && counts[0] is None ==> first_count(counts) == 0,
{
}

/// The zkApp entries of a list of blocks are those of its parts, one after the other, and those of
/// one block are its transactions, each with the block.
pub proof fn zkapp_entries_are_those_of_all_blocks(
    some: Seq<ZkAppBlock>,
    more: Seq<ZkAppBlock>,
    block: ZkAppBlock,
    k: int,
)
    ensures
        zkapp_entries(some + more) == zkapp_entries(some) + zkapp_entries(more),
        zkapp_entries(seq![block]).len() == block.transactions@.len(),
        0 <= k < block.transactions@.len() ==> zkapp_entries(seq![block])[k] == (
            block,
            block.transactions@[k],
        ),
        zkapp_entries(Seq::empty()).len() == 0,
    decreases more.len(),
{
    let one = seq![block];
    assert(one.drop_last() =~= Seq::empty());
    assert(zkapp_entries(one.drop_last()) =~= Seq::empty());
    assert(zkapp_entries(one) =~= block.transactions@.map_values(
        |t: ZkAppTransaction| (one.last(), t),
    ));
    if more.len() > 0 {
        let whole = some + more;
        zkapp_entries_are_those_of_all_blocks(some, more.drop_last(), block, k);
        assert(whole.drop_last() =~= some + more.drop_last());
        assert(whole.last() == more.last());
        let own = more.last().transactions@.map_values(|t: ZkAppTransaction| (more.last(), t));
        assert(whole.last().transactions@.map_values(|t: ZkAppTransaction| (whole.last(), t))
            =~= own);
        assert(zkapp_entries(whole) =~= zkapp_entries(some) + zkapp_entries(more));
    } else {
        assert(some + more =~= some);
        assert(zkapp_entries(some) + zkapp_entries(more) =~= zkapp_entries(some));
    }
}

/// After an answer that added `n` transactions, a page that is not full goes on: the offset is less
/// by `n`, but not below zero, and the limit is less by `n`. Where as many were added as were to be
/// passed over, the next kind is asked for from its first row.
pub proof fn pages_go_on_where_they_stopped(cursor: Cursor, n: int)
    requires
        0 <= n,
    ensures
        cursor.advance(n).collects <==> cursor.collects && cursor.limit > n,
        cursor.collects && cursor.limit > n ==> {
            let page = cursor.advance(n).page();
            &&& page.1 + n == cursor.limit
            &&& n <= cursor.offset ==> page.0 + n == cursor.offset
            &&& n >= cursor.offset ==> page.0 == 0
        },
        !cursor.collects || cursor.limit <= n ==> cursor.advance(n).page() == (0int, 1int),
        cursor.collects ==> cursor.page() == (cursor.offset, cursor.limit),
{
}

/// Rows of an answer are all added while the page goes on, and none once it is full.
pub proof fn answers_are_added_whole_or_not_at_all(n: nat)
    ensures
        added(true, n) == n,
        added(false, n) == 0,
{
}

/// A search begins with the page that its request asks for.
pub proof fn searches_begin_with_their_page(search: UserSearch)
    ensures
        search.cursor().collects,
        search.cursor().page() == (search.offset as int, search.limit as int),
{
}

/// The progress of a search stands where its fields say.
pub proof fn progress_stands_where_it_says(progress: SearchProgress)
    ensures
        progress.collects ==> progress.cursor().page() == (
            progress.offset as int,
            progress.limit as int,
        ),
        !progress.collects ==> progress.cursor().page() == (0int, 1int),
        progress.cursor().collects == progress.collects,
{
}

impl<UO, UM, II, IO> TransactionGenerators<UO, UM, II, IO> where
    UO: Fn(&UserCommandMetadata) -> Vec<coinbase_mesh::models::Operation>,
    UM: Fn(&UserCommandMetadata) -> Option<serde_json::Value>,
    II: Fn(&InternalCommandType, i32, i32, &String) -> String,
    IO: Fn(&InternalCommandMetadata) -> Vec<coinbase_mesh::models::Operation>,
 {
    /// The pages of a search, by what its request asks for and what has been found: after the user
    /// commands, and again after the internal commands, the offset and the limit are less by what
    /// has been found, the offset not below zero, while that is less than the limit. Else a single
    /// row is asked for.
    pub proof fn pages_follow_what_has_been_found(
        &self,
        search: UserSearch,
        users: Seq<UserCommand>,
        second: InternalSearch,
        internals: Seq<InternalCommand>,
        third: ZkAppSearch,
    )
        requires
            self.takes_users(search, users, second),
            self.takes_internals(second, internals, third),
        ensures
            ({
                let u = users.len() as int;
                let page = second.progress.cursor().page();
                &&& search.limit > u ==> page.1 == search.limit - u
                &&& search.limit > u && search.offset >= u ==> page.0 == search.offset - u
                &&& search.limit > u && search.offset <= u ==> page.0 == 0
                &&& search.limit <= u ==> page == (0int, 1int)
            }),
            ({
                let n = users.len() + internals.len();
                let page = third.progress.cursor().page();
                &&& search.limit > n ==> page.1 == search.limit - n
                &&& search.limit > n && search.offset >= n ==> page.0 == search.offset - n
                &&& search.limit > n && search.offset <= n ==> page.0 == 0
                &&& search.limit <= n ==> page == (0int, 1int)
            }),
            second.progress.params == search.params,
            third.progress.params == search.params,
    {
    }

    /// A search tells each user command that was found: its block, its transaction, and its time
    /// where times are asked for.
    pub proof fn found_user_commands_are_told(
        &self,
        search: UserSearch,
        users: Seq<UserCommand>,
        second: InternalSearch,
        k: int,
    )
        requires
            self.takes_users(search, users, second),
            0 <= k < users.len(),
        ensures
            second.progress.transactions@.len() == users.len(),
            ({
                let t = second.progress.transactions@[k];
                let row = users[k];
                &&& t.transaction.transaction_identifier.hash@ == row.command.hash@
                &&& self.presents_user(row.command@, t.transaction)
                &&& row.height matches Some(h) ==> t.block_identifier.index == h
                &&& row.height is None ==> t.block_identifier.index == 0
                &&& row.state_hash matches Some(h) ==> t.block_identifier.hash@ == h@
                &&& row.state_hash is None ==> t.block_identifier.hash@.len() == 0
                &&& !search.include_timestamp || row.timestamp is None ==> t.timestamp is None
                &&& row.timestamp matches Some(text) ==> (search.include_timestamp ==> t.timestamp
                    == match crate::text::parsed_i64(text@) {
                    Ok(n) => Some(n as i64),
                    Err(_) => Some(0i64),
                })
            }),
            second.progress.original_offset == search.offset,
            second.progress.include_timestamp == search.include_timestamp,
    {
        assert(self.presents_user_row(users[k], second.progress.transactions@[k]));
    }

    /// A search tells each internal command that was found for its page, behind what it held: its
    /// block, its transaction, and its time where times are asked for. What it held stays.
    pub proof fn found_internal_commands_are_told(
        &self,
        second: InternalSearch,
        internals: Seq<InternalCommand>,
        third: ZkAppSearch,
        k: int,
    )
        requires
            self.takes_internals(second, internals, third),
        ensures
            0 <= k < second.progress.transactions@.len() ==> third.progress.transactions@[k]
                == second.progress.transactions@[k],
            third.progress.transactions@.len() == second.progress.transactions@.len() + (
            if second.progress.collects {
                internals.len()
            } else {
                0
            }),
            second.progress.collects && 0 <= k < internals.len() ==> {
                let t = third.progress.transactions@[second.progress.transactions@.len() + k];
                let row = internals[k];
                let wanted = second.progress.include_timestamp;
                &&& self.presents_internal(row.command@, t.transaction)
                &&& row.height matches Some(h) ==> t.block_identifier.index == h
                &&& row.height is None ==> t.block_identifier.index == 0
                &&& row.state_hash matches Some(h) ==> t.block_identifier.hash@ == h@
                &&& row.state_hash is None ==> t.block_identifier.hash@.len() == 0
                &&& !wanted || row.timestamp is None ==> t.timestamp is None
                &&& row.timestamp matches Some(text) ==> (wanted ==> t.timestamp
                    == match crate::text::parsed_i64(text@) {
                    Ok(n) => Some(n as i64),
                    Err(_) => Some(0i64),
                })
            },
            third.progress.original_offset == second.progress.original_offset,
            third.progress.include_timestamp == second.progress.include_timestamp,
    {
        let before = second.progress.transactions@;
        let after = third.progress.transactions@;
        if second.progress.collects {
            assert(after.skip(before.len() as int).len() == internals.len());
            if 0 <= k < before.len() {
                assert(after.take(before.len() as int)[k] == after[k]);
            }
            if 0 <= k < internals.len() {
                assert(after.skip(before.len() as int)[k] == after[before.len() + k]);
                assert(self.presents_internal_row(
                    internals[k],
                    after.skip(before.len() as int)[k],
                ));
            }
        }
    }
}

/// The answer to a search holds what has been found, and behind it, while the page is not full,
/// every zkApp transaction that was found: its hash, its operations, its block, and its time where
/// times are asked for.
pub proof fn found_zkapp_transactions_are_told(
    third: ZkAppSearch,
    page: ZkAppPage,
    response: SearchTransactionsResponse,
    k: int,
)
    requires
        third.answers(page, response),
    ensures
        0 <= k < third.progress.transactions@.len() ==> response.transactions@[k]
            == third.progress.transactions@[k],
        response.transactions@.len() == third.progress.transactions@.len() + (
        if third.progress.collects {
            zkapp_entries(page.blocks@).len()
        } else {
            0
        }),
        third.progress.collects && 0 <= k < zkapp_entries(page.blocks@).len() ==> {
            let t = response.transactions@[third.progress.transactions@.len() + k];
            let (block, zkapp) = zkapp_entries(page.blocks@)[k];
            let wanted = third.progress.include_timestamp;
            &&& t.transaction.transaction_identifier.hash@ == zkapp.hash@
            &&& t.transaction.operations@ == zkapp.operations@
            &&& t.transaction.metadata is None
            &&& t.transaction.related_transactions is None
            &&& block.block_index matches Some(n) ==> t.block_identifier.index == n
            &&& block.block_index is None ==> t.block_identifier.index == 0
            &&& block.block_hash matches Some(h) ==> t.block_identifier.hash@ == h@
            &&& block.block_hash is None ==> t.block_identifier.hash@.len() == 0
            &&& !wanted ==> t.timestamp is None
            &&& wanted && block.timestamp is None ==> t.timestamp == Some(0i64)
            &&& block.timestamp matches Some(text) ==> (wanted ==> t.timestamp
                == match crate::text::parsed_i64(text@) {
                Ok(n) => Some(n as i64),
                Err(_) => Some(0i64),
            })
        },
{
    let n = third.progress.transactions@.len() as int;
    crate::text::i64_begins_with_a_digit_or_a_sign('0');
    if 0 <= k < n {
        assert(response.transactions@.take(n)[k] == response.transactions@[k]);
    }
    if third.progress.collects && 0 <= k < zkapp_entries(page.blocks@).len() {
        assert(presents_zkapp_entry(
            zkapp_entries(page.blocks@)[n + k - n],
            third.progress.include_timestamp,
            response.transactions@[n + k],
        ));
    }
}

/// The answer to a search names the offset behind its last transaction exactly if more match than
/// lie before it.
pub proof fn next_offset_is_behind_the_answer(
    third: ZkAppSearch,
    page: ZkAppPage,
    response: SearchTransactionsResponse,
)
    requires
        third.fits(page),
        third.answers(page, response),
    ensures
        response.total_count == third.progress.total_count + first_count(page.total_counts@),
        response.next_offset is Some <==> third.progress.original_offset
            + response.transactions@.len() < response.total_count,
        response.next_offset matches Some(next) ==> next == third.progress.original_offset
            + response.transactions@.len(),
{
}

/// A search goes on with every answer whose counts and lengths are 64-bit numbers.
pub proof fn small_answers_fit(
    first: UserSearch,
    users: Seq<UserCommand>,
    second: InternalSearch,
    internals: Seq<InternalCommand>,
    third: ZkAppSearch,
    page: ZkAppPage,
)
    ensures
        users.len() <= 0x7fff_ffff_ffff_ffff ==> first.fits(users),
        -0x8000_0000_0000_0000 <= second.progress.total_count + first_count(
            internal_counts(internals),
        ) <= 0x7fff_ffff_ffff_ffff && second.progress.transactions@.len() + internals.len()
            <= 0x7fff_ffff_ffff_ffff ==> second.fits(internals),
        -0x8000_0000_0000_0000 <= third.progress.total_count + first_count(page.total_counts@)
            <= 0x7fff_ffff_ffff_ffff && third.progress.transactions@.len() + zkapp_entries(
            page.blocks@,
        ).len() <= 0x7fff_ffff_ffff_ffff && third.progress.original_offset
            + third.progress.transactions@.len() + zkapp_entries(page.blocks@).len()
            <= 0x7fff_ffff_ffff_ffff ==> third.fits(page),
{
}

} // verus!
