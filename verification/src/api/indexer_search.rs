//! A search that the trustless indexer serves.
//!
//! The indexer finds user commands by hash, by sender and by receiver. It has no pages, no counts
//! and no filter for sender or receiver, so both lists are fetched, united, filtered and paged
//! here. The count of an answer is that of the fetched rows.

use vstd::prelude::*;

use crate::api::archive_search::UserSearch;
use crate::api::search_transactions::SearchTransactionsQueryParams;
use crate::commands::TransactionGenerators;
use crate::error::MinaMeshError;
use crate::mesh::MinaMesh;
use crate::text::{is_text_less, parse_i64};
use crate::types::{
    Block, BlockIdentifier, BlockIdentifierView, BlockTransaction, InternalCommandMetadata,
    InternalCommandType, IxBlock, IxSearchTxn, SearchTransactionsRequest, SearchTransactionsResponse,
    TransactionStatus, UserCommandMetadata,
};

verus! {

/// What the indexer is asked for.
#[derive(Debug)]
pub enum IndexerLookup {
    /// The user command with this hash.
    Transaction(String),
    /// The user commands that an account sent, and those that it received, up to a height, and not
    /// more than `cap` of each.
    Account { public_key: String, max_height: Option<u32>, cap: u64 },
    /// Nothing: the search names neither a transaction nor an account.
    Nothing,
}

/// A search over the indexer.
#[derive(Debug)]
pub struct IndexerSearch {
    pub params: SearchTransactionsQueryParams,
    pub include_timestamp: bool,
    pub limit: i64,
    pub offset: i64,
}

/// `n`, or zero if it is negative.
pub open spec fn not_negative(n: int) -> int {
    if n < 0 {
        0
    } else {
        n
    }
}

/// How many rows to fetch, to cover the page and some more.
pub open spec fn row_cap(offset: int, limit: int) -> int {
    offset + (if limit < 1 {
        1
    } else {
        limit
    }) + 50
}

impl IndexerSearch {
    /// The page begins at or behind the first row, and does not end before it begins.
    pub open spec fn wf(self) -> bool {
        0 <= self.offset && 0 <= self.limit
    }

    /// The account that the search is about: the account identifier, or else the address.
    pub open spec fn account(self) -> Option<String> {
        match self.params.account_identifier {
            Some(account) => Some(account),
            None => self.params.address,
        }
    }

    /// Begins a search for what a request asks for. The first hundred transactions are its page
    /// unless it says otherwise; negative numbers count as zero.
    pub fn new(params: SearchTransactionsQueryParams, req: &SearchTransactionsRequest) -> (search:
        IndexerSearch)
        ensures
            search.wf(),
            search.params == params,
            search.include_timestamp == match req.include_timestamp {
                Some(wanted) => wanted,
                None => false,
            },
            search.limit == match req.limit {
                Some(limit) => not_negative(limit as int),
                None => 100,
            },
            search.offset == match req.offset {
                Some(offset) => not_negative(offset as int),
                None => 0,
            },
    {
        let limit = req.limit.unwrap_or(100);
        let offset = req.offset.unwrap_or(0);
        IndexerSearch {
            params,
            include_timestamp: req.include_timestamp.unwrap_or(false),
            limit: if limit < 0 {
                0
            } else {
                limit
            },
            offset: if offset < 0 {
                0
            } else {
                offset
            },
        }
    }

    /// Whether the number of rows to fetch fits in 64 bits, where rows are fetched.
    pub open spec fn cap_fits(self) -> bool {
        self.params.transaction_hash is None && self.account() is Some ==> row_cap(
            self.offset as int,
            self.limit as int,
        ) <= u64::MAX
    }

    /// Says whether the number of rows to fetch fits in 64 bits, where rows are fetched.
    pub fn check_cap(&self) -> (fits: bool)
        requires
            self.wf(),
        ensures
            fits == self.cap_fits(),
    {
        let rows: u128 = if self.limit < 1 {
            1
        } else {
            self.limit as u128
        };
        let cap: u128 = self.offset as u128 + rows + 50;
        self.params.transaction_hash.is_some() || (self.params.account_identifier.is_none()
            && self.params.address.is_none()) || cap <= u64::MAX as u128
    }

    /// Decides what to ask the indexer for: the named transaction, else the commands of the
    /// account. A greatest height is handed over in 32 bits.
    pub fn lookup(&self) -> (lookup: IndexerLookup)
        requires
            self.wf(),
            self.cap_fits(),
        ensures
            match (self.params.transaction_hash, self.account()) {
                (Some(hash), _) => lookup == IndexerLookup::Transaction(hash),
                (None, Some(account)) => {
                    &&& lookup matches IndexerLookup::Account { public_key, max_height, cap }
                    &&& public_key == account
                    &&& cap == row_cap(self.offset as int, self.limit as int)
                    &&& match self.params.max_block {
                        Some(height) => max_height matches Some(h) && h as int == (height as int)
                            % 0x1_0000_0000,
                        None => max_height is None,
                    }
                },
                (None, None) => lookup is Nothing,
            },
    {
        if let Some(hash) = &self.params.transaction_hash {
            return IndexerLookup::Transaction(hash.clone());
        }
        let account = match &self.params.account_identifier {
            Some(account) => Some(account.clone()),
            None => crate::types::copy_text(&self.params.address),
        };
        match account {
            Some(public_key) => {
                let max_height = match self.params.max_block {
                    Some(height) => {
                        proof {
                            assert((height as u32) as i64 == height % 0x1_0000_0000i64)
                                by (bit_vector);
                        }
                        Some(#[verifier::truncate] (height as u32))
                    },
                    None => None,
                };
                let rows: u64 = if self.limit < 1 {
                    1
                } else {
                    self.limit as u64
                };
                let cap: u64 = self.offset as u64 + rows + 50;
                IndexerLookup::Account { public_key, max_height, cap }
            },
            None => IndexerLookup::Nothing,
        }
    }
}

/// Whether one of `rows` has the hash `hash`.
pub open spec fn has_hash(rows: Seq<IxSearchTxn>, hash: Seq<char>) -> bool {
    exists|i: int| 0 <= i < rows.len() && (#[trigger] rows[i]).command.hash@ == hash
}

/// `rows` without those whose hash an earlier one has.
pub open spec fn first_of_each_hash(rows: Seq<IxSearchTxn>) -> Seq<IxSearchTxn>
    decreases rows.len(),
{
    if rows.len() == 0 {
        Seq::empty()
    } else {
        let before = first_of_each_hash(rows.drop_last());
        if has_hash(rows.drop_last(), rows.last().command.hash@) {
            before
        } else {
            before.push(rows.last())
        }
    }
}

/// The order of an answer: the newer block first, and within a block the lesser hash.
pub open spec fn comes_before(a: IxSearchTxn, b: IxSearchTxn) -> bool {
    ||| a.block_height > b.block_height
    ||| a.block_height == b.block_height && crate::text::text_less(
        a.command.hash@,
        b.command.hash@,
    )
}

/// Puts `row` in its place among ordered rows, behind those that it is level with.
pub open spec fn placed(rows: Seq<IxSearchTxn>, row: IxSearchTxn) -> Seq<IxSearchTxn>
    decreases rows.len(),
{
    if rows.len() > 0 && comes_before(row, rows.last()) {
        placed(rows.drop_last(), row).push(rows.last())
    } else {
        rows.push(row)
    }
}

/// `rows` in the order of an answer.
pub open spec fn newest_first(rows: Seq<IxSearchTxn>) -> Seq<IxSearchTxn>
    decreases rows.len(),
{
    if rows.len() == 0 {
        Seq::empty()
    } else {
        placed(newest_first(rows.drop_last()), rows.last())
    }
}

/// Those of `rows` that have the wanted status, if one is wanted.
pub open spec fn with_status(rows: Seq<IxSearchTxn>, status: Option<TransactionStatus>) -> Seq<
    IxSearchTxn,
> {
    match status {
        Some(wanted) => rows.filter(
            |t: IxSearchTxn| t.command.is_applied == (wanted == TransactionStatus::Applied),
        ),
        None => rows,
    }
}

/// The page of at most `limit` rows behind the first `offset`.
pub open spec fn page_of(rows: Seq<IxSearchTxn>, offset: int, limit: int) -> Seq<IxSearchTxn> {
    if offset >= rows.len() {
        Seq::empty()
    } else if offset + limit <= rows.len() {
        rows.subrange(offset, offset + limit)
    } else {
        rows.skip(offset)
    }
}

/// The rows at the given places.
pub open spec fn rows_at(rows: Seq<IxSearchTxn>, places: Seq<usize>) -> Seq<IxSearchTxn> {
    places.map_values(|k: usize| rows[k as int])
}

proof fn lemma_placed(rows: Seq<IxSearchTxn>, row: IxSearchTxn, at: int)
    requires
        0 <= at <= rows.len(),
        forall|k: int| at <= k < rows.len() ==> comes_before(row, #[trigger] rows[k]),
        at > 0 ==> !comes_before(row, rows[at - 1]),
    ensures
        placed(rows, row) == rows.insert(at, row),
    decreases rows.len(),
{
    if rows.len() > at {
        let shorter = rows.drop_last();
        assert forall|k: int| at <= k < shorter.len() implies comes_before(
            row,
            #[trigger] shorter[k],
        ) by {
            assert(shorter[k] == rows[k]);
        }
        lemma_placed(shorter, row, at);
        assert(comes_before(row, rows[rows.len() - 1]));
        assert(shorter.insert(at, row).push(rows.last()) =~= rows.insert(at, row));
    } else {
        assert(rows.insert(at, row) =~= rows.push(row));
    }
}

fn is_before(a: &IxSearchTxn, b: &IxSearchTxn) -> (r: bool)
    ensures
        r == comes_before(*a, *b),
{
    a.block_height > b.block_height || (a.block_height == b.block_height && is_text_less(
        a.command.hash.as_str(),
        b.command.hash.as_str(),
    ))
}

/// Whether one of the rows before `i` has the hash of the row at `i`.
fn hash_is_seen(rows: &Vec<IxSearchTxn>, i: usize) -> (seen: bool)
    requires
        i < rows.len(),
    ensures
        seen == has_hash(rows@.take(i as int), rows@[i as int].command.hash@),
{
    let ghost earlier = rows@.take(i as int);
    let hash = &rows[i].command.hash;
    let mut j: usize = 0;
    while j < i
        invariant
            j <= i < rows.len(),
            earlier == rows@.take(i as int),
            *hash == rows@[i as int].command.hash,
            forall|k: int| 0 <= k < j ==> (#[trigger] earlier[k]).command.hash@ != hash@,
        decreases i - j,
    {
        if rows[j].command.hash == *hash {
            proof {
                assert(earlier[j as int].command.hash@ == hash@);
            }
            return true;
        }
        j = j + 1;
    }
    false
}

/// The places of the rows that an answer is made of: the first of each hash, newest first.
fn ordered_places(rows: &Vec<IxSearchTxn>) -> (places: Vec<usize>)
    ensures
        forall|k: int| 0 <= k < places@.len() ==> (#[trigger] places@[k]) < rows@.len(),
        rows_at(rows@, places@) == newest_first(first_of_each_hash(rows@)),
{
    let mut places: Vec<usize> = Vec::new();
    let mut i: usize = 0;
    proof {
        assert(rows@.take(0) =~= Seq::empty());
        assert(rows_at(rows@, places@) =~= Seq::empty());
    }
    while i < rows.len()
        invariant
            i <= rows.len(),
            forall|k: int| 0 <= k < places@.len() ==> (#[trigger] places@[k]) < rows@.len(),
            rows_at(rows@, places@) == newest_first(first_of_each_hash(rows@.take(i as int))),
        decreases rows.len() - i,
    {
        let row = &rows[i];
        let ghost earlier = rows@.take(i as int);
        proof {
            assert(rows@.take(i + 1).drop_last() =~= earlier);
        }
        let seen = hash_is_seen(rows, i);
        if !seen {
            let ghost kept = first_of_each_hash(earlier);
            let ghost ordered = rows_at(rows@, places@);
            let mut at: usize = places.len();
            while at > 0 && is_before(row, &rows[places[at - 1]])
                invariant
                    at <= places.len(),
                    forall|k: int| 0 <= k < places@.len() ==> (#[trigger] places@[k]) < rows@.len(),
                    ordered == rows_at(rows@, places@),
                    forall|k: int| at <= k < ordered.len() ==> comes_before(*row, #[trigger] ordered[k]),
                decreases at,
            {
                assert(ordered[at - 1] == rows@[places@[at - 1] as int]);
                at = at - 1;
            }
            proof {
                if at > 0 {
                    assert(ordered[at - 1] == rows@[places@[at - 1] as int]);
                }
                lemma_placed(ordered, *row, at as int);
                assert(kept.push(*row).drop_last() =~= kept);
                assert(rows_at(rows@, places@.insert(at as int, i)) =~= ordered.insert(
                    at as int,
                    *row,
                ));
            }
            places.insert(at, i);
        }
        i = i + 1;
    }
    proof {
        assert(rows@.take(i as int) =~= rows@);
    }
    places
}

/// The places of the rows that have the wanted status, if one is wanted.
fn places_with_status(
    rows: &Vec<IxSearchTxn>,
    places: Vec<usize>,
    status: Option<TransactionStatus>,
) -> (kept: Vec<usize>)
    requires
        forall|k: int| 0 <= k < places@.len() ==> (#[trigger] places@[k]) < rows@.len(),
    ensures
        forall|k: int| 0 <= k < kept@.len() ==> (#[trigger] kept@[k]) < rows@.len(),
        rows_at(rows@, kept@) == with_status(rows_at(rows@, places@), status),
{
    let want_applied = match status {
        Some(wanted) => wanted == TransactionStatus::Applied,
        None => {
            return places;
        },
    };
    let ghost all = rows_at(rows@, places@);
    let ghost wanted = status->0;
    let ghost keeps = |t: IxSearchTxn|
        t.command.is_applied == (wanted == TransactionStatus::Applied);
    let mut kept: Vec<usize> = Vec::new();
    let mut i: usize = 0;
    proof {
        reveal(Seq::filter);
        assert(rows_at(rows@, kept@) =~= all.take(0).filter(keeps));
    }
    while i < places.len()
        invariant
            i <= places.len(),
            forall|k: int| 0 <= k < places@.len() ==> (#[trigger] places@[k]) < rows@.len(),
            forall|k: int| 0 <= k < kept@.len() ==> (#[trigger] kept@[k]) < rows@.len(),
            all == rows_at(rows@, places@),
            want_applied == (wanted == TransactionStatus::Applied),
            keeps == (|t: IxSearchTxn|
                t.command.is_applied == (wanted == TransactionStatus::Applied)),
            rows_at(rows@, kept@) == all.take(i as int).filter(keeps),
        decreases places.len() - i,
    {
        proof {
            reveal(Seq::filter);
            assert(all.take(i + 1).drop_last() =~= all.take(i as int));
            assert(all.take(i + 1).last() == rows@[places@[i as int] as int]);
        }
        let place = places[i];
        if rows[place].command.is_applied == want_applied {
            proof {
                assert(rows_at(rows@, kept@.push(place)) =~= rows_at(rows@, kept@).push(
                    rows@[place as int],
                ));
            }
            kept.push(place);
        }
        i = i + 1;
    }
    proof {
        assert(all.take(i as int) =~= all);
    }
    kept
}

impl IxSearchTxn {
    /// The identifier of the block that holds the command.
    pub open spec fn block_identifier(self) -> BlockIdentifierView {
        BlockIdentifierView { index: self.block_height as int, hash: self.block.state_hash@ }
    }

    /// The block's time in milliseconds, if it is asked for. The indexer gives ISO date-times,
    /// which are no numbers, so there is none as a rule.
    pub open spec fn time(self, include_timestamp: bool) -> Option<i64> {
        if include_timestamp {
            match crate::text::parsed_i64(self.block.date_time@) {
                Ok(millis) => Some(millis as i64),
                Err(_) => None,
            }
        } else {
            None
        }
    }
}

impl<UO, UM, II, IO> TransactionGenerators<UO, UM, II, IO> where
    UO: Fn(&UserCommandMetadata) -> Vec<coinbase_mesh::models::Operation>,
    UM: Fn(&UserCommandMetadata) -> Option<serde_json::Value>,
    II: Fn(&InternalCommandType, i32, i32, &String) -> String,
    IO: Fn(&InternalCommandMetadata) -> Vec<coinbase_mesh::models::Operation>,
 {
    /// Whether `found` presents a user command of the indexer and its block.
    pub open spec fn presents_indexed(
        &self,
        row: IxSearchTxn,
        include_timestamp: bool,
        found: BlockTransaction,
    ) -> bool {
        &&& found.block_identifier@ == row.block_identifier()
        &&& self.presents_user(row.command.metadata(), found.transaction)
        &&& found.timestamp == row.time(include_timestamp)
    }

    /// A block and a search report the same user command alike, whether or not a search asks for
    /// times: they put it in the same shape, and the transaction of either presents what the other
    /// tells. Where the functions give one result for each command, the two transactions hold the
    /// same.
    pub proof fn block_and_search_report_alike(
        &self,
        ix: IxBlock,
        block: Block,
        i: int,
        row: IxSearchTxn,
        include_timestamp: bool,
        found: BlockTransaction,
    )
        requires
            self.presents_indexer_block(ix, block),
            0 <= i < ix.transactions.user_commands@.len(),
            self.presents_indexed(row, include_timestamp, found),
            row.command.same_as(ix.transactions.user_commands@[i]),
        ensures
            row.command.metadata() == ix.transactions.user_commands@[i].metadata(),
            self.presents_user(row.command.metadata(), block.transactions@[i]),
            self.presents_user(ix.transactions.user_commands@[i].metadata(), found.transaction),
            found.transaction.transaction_identifier.hash@
                == block.transactions@[i].transaction_identifier.hash@,
            found.transaction.related_transactions == block.transactions@[i].related_transactions,
            self.single_valued() ==> {
                &&& found.transaction.operations@ == block.transactions@[i].operations@
                &&& found.transaction.metadata == block.transactions@[i].metadata
            },
    {
        let x = block.transactions@[i];
        let command = ix.transactions.user_commands@[i].metadata();
        assert(self.presents_user(command, x));
        let m = choose|m: UserCommandMetadata|
            {
                &&& m@ == command
                &&& #[trigger] call_ensures(self.operations_user_command, (&m,), x.operations)
                &&& call_ensures(self.transaction_metadata, (&m,), x.metadata)
            };
        let n = choose|n: UserCommandMetadata|
            {
                &&& n@ == command
                &&& #[trigger] call_ensures(
                    self.operations_user_command,
                    (&n,),
                    found.transaction.operations,
                )
                &&& call_ensures(self.transaction_metadata, (&n,), found.transaction.metadata)
            };
        if self.single_valued() {
            assert(m@ == n@);
        }
    }

    /// Presents a user command that the indexer found.
    pub fn ix_search_to_block_transaction(
        &self,
        tx: &IxSearchTxn,
        include_timestamp: bool,
    ) -> (found: BlockTransaction)
        requires
            self.total(),
        ensures
            self.presents_indexed(*tx, include_timestamp, found),
    {
        let meta = tx.command.to_metadata();
        let transaction = self.user_command_transaction(&meta);
        let timestamp = if include_timestamp {
            match parse_i64(tx.block.date_time.as_str()) {
                Ok(millis) => Some(millis),
                Err(_) => None,
            }
        } else {
            None
        };
        BlockTransaction {
            block_identifier: BlockIdentifier::new(
                tx.block_height as i64,
                tx.block.state_hash.clone(),
            ),
            transaction,
            timestamp,
        }
    }

    /// Whether `response` answers a search with the rows that the indexer found.
    pub open spec fn answers_indexed(
        &self,
        search: IndexerSearch,
        rows: Seq<IxSearchTxn>,
        response: SearchTransactionsResponse,
    ) -> bool {
        let matches = search.matches(rows);
        let page = page_of(matches, search.offset as int, search.limit as int);
        &&& response.total_count == matches.len()
        &&& response.transactions@.len() == page.len()
        &&& forall|i: int|
            0 <= i < page.len() ==> self.presents_indexed(
                page[i],
                search.include_timestamp,
                #[trigger] response.transactions@[i],
            )
        &&& response.next_offset == if search.offset + page.len() < matches.len() {
            Some((search.offset + page.len()) as i64)
        } else {
            None
        }
    }
}

impl IndexerSearch {
    /// What of the fetched rows matches the search, in the order of the answer.
    pub open spec fn matches(self, rows: Seq<IxSearchTxn>) -> Seq<IxSearchTxn> {
        with_status(
            with_status(newest_first(first_of_each_hash(rows)), self.params.status),
            self.params.success_status,
        )
    }

    /// The rows of a transaction that was looked up by its hash.
    pub fn transaction_rows(found: Option<IxSearchTxn>) -> (rows: Vec<IxSearchTxn>)
        ensures
            rows@ == match found {
                Some(t) => seq![t],
                None => Seq::empty(),
            },
    {
        let mut rows: Vec<IxSearchTxn> = Vec::new();
        if let Some(t) = found {
            rows.push(t);
        }
        proof {
            assert(rows@ =~= match found {
                Some(t) => seq![t],
                None => Seq::empty(),
            });
        }
        rows
    }

    /// Whether the rows that were found can be counted in 64 bits.
    pub open spec fn fits(self, outgoing: Seq<IxSearchTxn>, incoming: Seq<IxSearchTxn>) -> bool {
        outgoing.len() + incoming.len() <= i64::MAX
    }

    /// Says whether the rows that were found can be counted in 64 bits.
    pub fn check_fits(&self, outgoing: &Vec<IxSearchTxn>, incoming: &Vec<IxSearchTxn>) -> (fits: bool)
        ensures
            fits == self.fits(outgoing@, incoming@),
    {
        let rows: u128 = outgoing.len() as u128 + incoming.len() as u128;
        rows <= i64::MAX as u128
    }

    /// Takes the rows that were found, those that the account sent and those that it received, and
    /// answers the search.
    pub fn found<UO, UM, II, IO>(
        &self,
        outgoing: Vec<IxSearchTxn>,
        incoming: Vec<IxSearchTxn>,
        generators: &TransactionGenerators<UO, UM, II, IO>,
    ) -> (response: SearchTransactionsResponse) where
        UO: Fn(&UserCommandMetadata) -> Vec<coinbase_mesh::models::Operation>,
        UM: Fn(&UserCommandMetadata) -> Option<serde_json::Value>,
        II: Fn(&InternalCommandType, i32, i32, &String) -> String,
        IO: Fn(&InternalCommandMetadata) -> Vec<coinbase_mesh::models::Operation>,

        requires
            self.wf(),
            generators.total(),
            self.fits(outgoing@, incoming@),
        ensures
            generators.answers_indexed(*self, outgoing@ + incoming@, response),
    {
        let mut rows = outgoing;
        let mut more = incoming;
        rows.append(&mut more);
        let ordered = ordered_places(&rows);
        let places = places_with_status(
            &rows,
            places_with_status(&rows, ordered, self.params.status),
            self.params.success_status,
        );
        let ghost matches = self.matches(rows@);
        let ghost page = page_of(matches, self.offset as int, self.limit as int);
        proof {
            lemma_matches_len(*self, rows@);
            assert(rows_at(rows@, places@).len() == matches.len());
        }
        let total_count: i64 = places.len() as i64;
        let mut transactions: Vec<BlockTransaction> = Vec::new();
        let mut at: i64 = self.offset;
        let mut left: i64 = self.limit;
        while at < total_count && left > 0
            invariant
                self.wf(),
                generators.total(),
                matches == rows_at(rows@, places@),
                matches.len() == total_count,
                page == page_of(matches, self.offset as int, self.limit as int),
                forall|k: int| 0 <= k < places@.len() ==> (#[trigger] places@[k]) < rows@.len(),
                places@.len() == total_count,
                transactions@.len() == at - self.offset,
                transactions@.len() == self.limit - left,
                transactions@.len() <= page.len(),
                0 <= left,
                self.offset <= at,
                at > self.offset ==> at <= total_count,
                forall|i: int|
                    0 <= i < transactions@.len() ==> generators.presents_indexed(
                        page[i],
                        self.include_timestamp,
                        #[trigger] transactions@[i],
                    ),
            decreases left,
        {
            assert(at < places.len());
            let row = &rows[places[at as usize]];
            proof {
                assert(matches[at as int] == *row);
                assert(page[transactions@.len() as int] == *row);
            }
            transactions.push(generators.ix_search_to_block_transaction(row, self.include_timestamp));
            at = at + 1;
            left = left - 1;
        }
        let next_offset = if at < total_count {
            Some(at)
        } else {
            None
        };
        SearchTransactionsResponse { transactions, total_count, next_offset }
    }
}

proof fn lemma_filter_len(rows: Seq<IxSearchTxn>, keeps: spec_fn(IxSearchTxn) -> bool)
    ensures
        rows.filter(keeps).len() <= rows.len(),
    decreases rows.len(),
{
    reveal(Seq::filter);
    if rows.len() > 0 {
        lemma_filter_len(rows.drop_last(), keeps);
    }
}

proof fn lemma_with_status_len(rows: Seq<IxSearchTxn>, status: Option<TransactionStatus>)
    ensures
        with_status(rows, status).len() <= rows.len(),
{
    if let Some(wanted) = status {
        lemma_filter_len(
            rows,
            |t: IxSearchTxn| t.command.is_applied == (wanted == TransactionStatus::Applied),
        );
    }
}

proof fn lemma_placed_len(rows: Seq<IxSearchTxn>, row: IxSearchTxn)
    ensures
        placed(rows, row).len() == rows.len() + 1,
    decreases rows.len(),
{
    if rows.len() > 0 {
        lemma_placed_len(rows.drop_last(), row);
    }
}

proof fn lemma_newest_first_len(rows: Seq<IxSearchTxn>)
    ensures
        newest_first(rows).len() == rows.len(),
    decreases rows.len(),
{
    if rows.len() > 0 {
        lemma_newest_first_len(rows.drop_last());
        lemma_placed_len(newest_first(rows.drop_last()), rows.last());
    }
}

proof fn lemma_first_of_each_hash_len(rows: Seq<IxSearchTxn>)
    ensures
        first_of_each_hash(rows).len() <= rows.len(),
    decreases rows.len(),
{
    if rows.len() > 0 {
        lemma_first_of_each_hash_len(rows.drop_last());
    }
}

proof fn lemma_matches_len(search: IndexerSearch, rows: Seq<IxSearchTxn>)
    ensures
        search.matches(rows).len() <= rows.len(),
{
    let kept = first_of_each_hash(rows);
    lemma_first_of_each_hash_len(rows);
    lemma_newest_first_len(kept);
    lemma_with_status_len(newest_first(kept), search.params.status);
    lemma_with_status_len(
        with_status(newest_first(kept), search.params.status),
        search.params.success_status,
    );
}

/// Where a search is served from.
#[derive(Debug)]
pub enum SearchRoute {
    /// From the trustless indexer.
    Indexer(IndexerSearch),
    /// From the archive.
    Archive(UserSearch),
}

impl MinaMesh {
    /// Whether `route` begins the search that a request asks for, whose token id is `token`: over
    /// the indexer where one is configured, else over the archive. Where the request names a
    /// status that there is not, it is the error that says so.
    pub open spec fn routes_search(
        self,
        req: SearchTransactionsRequest,
        token: Option<Seq<char>>,
        route: Result<SearchRoute, MinaMeshError>,
    ) -> bool {
        if !req.status_is_valid() {
            route matches Err(e) && e.is_exception(req.status_message())
        } else if self.indexer is Some {
            &&& route matches Ok(SearchRoute::Indexer(search))
            &&& search.wf()
            &&& search.params.filters(req, token)
            &&& search.include_timestamp == (req.include_timestamp == Some(true))
            &&& search.limit == match req.limit {
                Some(limit) => not_negative(limit as int),
                None => 100,
            }
            &&& search.offset == match req.offset {
                Some(offset) => not_negative(offset as int),
                None => 0,
            }
        } else {
            &&& route matches Ok(SearchRoute::Archive(search))
            &&& search.params.filters(req, token)
            &&& search.include_timestamp == (req.include_timestamp == Some(true))
            &&& search.limit == match req.limit {
                Some(limit) => limit,
                None => 100,
            }
            &&& search.offset == match req.offset {
                Some(offset) => offset,
                None => 0,
            }
        }
    }

    fn route_search(
        &self,
        params: Result<SearchTransactionsQueryParams, MinaMeshError>,
        req: &SearchTransactionsRequest,
    ) -> (route: Result<SearchRoute, MinaMeshError>)
        requires
            SearchTransactionsQueryParams::are_filters(params, *req, req.token_text()),
        ensures
            self.routes_search(*req, req.token_text(), route),
    {
        match params {
            Ok(p) => if self.indexer.is_some() {
                Ok(SearchRoute::Indexer(IndexerSearch::new(p, req)))
            } else {
                Ok(SearchRoute::Archive(UserSearch::new(p, req)))
            },
            Err(e) => Err(e),
        }
    }

    /// Begins a search whose token id, if it names one, is a string.
    pub fn search_transactions(&self, req: &SearchTransactionsRequest) -> (route: Result<
        SearchRoute,
        MinaMeshError,
    >)
        requires
            req.token_is_text(),
        ensures
            self.routes_search(*req, req.token_text(), route),
    {
        self.route_search(SearchTransactionsQueryParams::try_from(req), req)
    }

    /// Begins a search; `None` where it names a token id that is no string.
    pub fn checked_search_transactions(&self, req: &SearchTransactionsRequest) -> (route: Option<
        Result<SearchRoute, MinaMeshError>,
    >)
        ensures
            route is Some <==> req.token_is_text(),
            route matches Some(r) ==> self.routes_search(*req, req.token_text(), r),
    {
        match SearchTransactionsQueryParams::checked_try_from(req) {
            Some(params) => Some(self.route_search(params, req)),
            None => None,
        }
    }
}

/// Whether rows are in the order of an answer.
pub open spec fn is_ordered(rows: Seq<IxSearchTxn>) -> bool {
    forall|i: int, j: int|
        0 <= i < j < rows.len() ==> comes_before(#[trigger] rows[i], #[trigger] rows[j])
}

/// Whether no two rows have the same hash.
pub open spec fn hashes_differ(rows: Seq<IxSearchTxn>) -> bool {
    forall|i: int, j: int|
        0 <= i < j < rows.len() ==> (#[trigger] rows[i]).command.hash@ != (
        #[trigger] rows[j]).command.hash@
}

proof fn lemma_comes_before_total(a: IxSearchTxn, b: IxSearchTxn)
    requires
        a.command.hash@ != b.command.hash@,
    ensures
        comes_before(a, b) <==> !comes_before(b, a),
{
    crate::text::text_less_total(a.command.hash@, b.command.hash@);
}

proof fn lemma_comes_before_transitive(a: IxSearchTxn, b: IxSearchTxn, c: IxSearchTxn)
    requires
        comes_before(a, b),
        comes_before(b, c),
    ensures
        comes_before(a, c),
{
    if a.block_height == b.block_height && b.block_height == c.block_height {
        crate::text::text_less_transitive(a.command.hash@, b.command.hash@, c.command.hash@);
    }
}

proof fn lemma_first_of_each_hash(rows: Seq<IxSearchTxn>)
    ensures
        hashes_differ(first_of_each_hash(rows)),
        forall|h: Seq<char>| has_hash(rows, h) <==> #[trigger] has_hash(first_of_each_hash(rows), h),
        forall|i: int|
            0 <= i < first_of_each_hash(rows).len() ==> rows.contains(
                #[trigger] first_of_each_hash(rows)[i],
            ),
    decreases rows.len(),
{
    let kept = first_of_each_hash(rows);
    if rows.len() > 0 {
        let earlier = rows.drop_last();
        let before = first_of_each_hash(earlier);
        let last = rows.last();
        lemma_first_of_each_hash(earlier);
        assert forall|h: Seq<char>| has_hash(rows, h) <==> #[trigger] has_hash(kept, h) by {
            if has_hash(rows, h) {
                let i = choose|i: int| 0 <= i < rows.len() && (#[trigger] rows[i]).command.hash@ == h;
                if i < earlier.len() {
                    assert(earlier[i].command.hash@ == h);
                    assert(has_hash(before, h));
                    let k = choose|k: int|
                        0 <= k < before.len() && (#[trigger] before[k]).command.hash@ == h;
                    assert(kept[k].command.hash@ == h);
                } else if has_hash(earlier, h) {
                    assert(has_hash(before, h));
                } else {
                    assert(kept[kept.len() - 1].command.hash@ == h);
                }
            }
            if has_hash(kept, h) {
                let k = choose|k: int| 0 <= k < kept.len() && (#[trigger] kept[k]).command.hash@ == h;
                if k < before.len() {
                    assert(before[k].command.hash@ == h);
                    assert(has_hash(earlier, h));
                    let i = choose|i: int|
                        0 <= i < earlier.len() && (#[trigger] earlier[i]).command.hash@ == h;
                    assert(rows[i].command.hash@ == h);
                } else {
                    assert(rows[rows.len() - 1].command.hash@ == h);
                }
            }
        }
        assert forall|i: int| 0 <= i < kept.len() implies rows.contains(#[trigger] kept[i]) by {
            if i < before.len() {
                assert(earlier.contains(before[i]));
                let j = choose|j: int| 0 <= j < earlier.len() && earlier[j] == before[i];
                assert(rows[j] == kept[i]);
            } else {
                assert(rows[rows.len() - 1] == kept[i]);
            }
        }
        if !has_hash(earlier, last.command.hash@) {
            assert(!has_hash(before, last.command.hash@));
            assert forall|i: int, j: int| 0 <= i < j < kept.len() implies (
            #[trigger] kept[i]).command.hash@ != (#[trigger] kept[j]).command.hash@ by {
                assert(kept[i] == before[i]);
                if j < before.len() {
                    assert(kept[j] == before[j]);
                }
            }
        }
    }
}

proof fn lemma_placed_ordered(rows: Seq<IxSearchTxn>, row: IxSearchTxn)
    requires
        is_ordered(rows),
        forall|i: int|
            0 <= i < rows.len() ==> (#[trigger] rows[i]).command.hash@ != row.command.hash@,
    ensures
        is_ordered(placed(rows, row)),
        placed(rows, row).to_multiset() == rows.to_multiset().insert(row),
        forall|i: int|
            0 <= i < placed(rows, row).len() ==> #[trigger] placed(rows, row)[i] == row
                || rows.contains(placed(rows, row)[i]),
    decreases rows.len(),
{
    broadcast use vstd::seq_lib::group_to_multiset_ensures;

    let result = placed(rows, row);
    if rows.len() > 0 && comes_before(row, rows.last()) {
        let shorter = rows.drop_last();
        let inner = placed(shorter, row);
        assert forall|i: int| 0 <= i < shorter.len() implies (
        #[trigger] shorter[i]).command.hash@ != row.command.hash@ by {
            assert(shorter[i] == rows[i]);
        }
        assert(is_ordered(shorter)) by {
            assert forall|i: int, j: int| 0 <= i < j < shorter.len() implies comes_before(
                #[trigger] shorter[i],
                #[trigger] shorter[j],
            ) by {
                assert(shorter[i] == rows[i] && shorter[j] == rows[j]);
            }
        }
        lemma_placed_ordered(shorter, row);
        assert(rows =~= shorter.push(rows.last()));
        assert(result.to_multiset() =~= rows.to_multiset().insert(row));
        assert forall|i: int| 0 <= i < inner.len() implies comes_before(
            #[trigger] inner[i],
            rows.last(),
        ) && (inner[i] == row || rows.contains(inner[i])) by {
            if inner[i] != row {
                let k = choose|k: int| 0 <= k < shorter.len() && shorter[k] == inner[i];
                assert(shorter[k] == rows[k]);
            }
        }
        assert forall|i: int, j: int| 0 <= i < j < result.len() implies comes_before(
            #[trigger] result[i],
            #[trigger] result[j],
        ) by {
            assert(result[i] == inner[i]);
            if j < inner.len() {
                assert(result[j] == inner[j]);
            }
        }
        assert forall|i: int| 0 <= i < result.len() implies #[trigger] result[i] == row
            || rows.contains(result[i]) by {
            if i < inner.len() {
                assert(result[i] == inner[i]);
            } else {
                assert(rows[rows.len() - 1] == result[i]);
            }
        }
    } else {
        assert forall|i: int, j: int| 0 <= i < j < result.len() implies comes_before(
            #[trigger] result[i],
            #[trigger] result[j],
        ) by {
            assert(result[i] == rows[i]);
            if j < rows.len() {
                assert(result[j] == rows[j]);
            } else {
                lemma_comes_before_total(row, rows.last());
                if i < rows.len() - 1 {
                    lemma_comes_before_transitive(rows[i], rows.last(), row);
                }
            }
        }
        assert forall|i: int| 0 <= i < result.len() implies #[trigger] result[i] == row
            || rows.contains(result[i]) by {
            if i < rows.len() {
                assert(result[i] == rows[i]);
            }
        }
    }
}

proof fn lemma_newest_first(rows: Seq<IxSearchTxn>)
    requires
        hashes_differ(rows),
    ensures
        is_ordered(newest_first(rows)),
        newest_first(rows).to_multiset() == rows.to_multiset(),
        forall|i: int|
            0 <= i < newest_first(rows).len() ==> rows.contains(#[trigger] newest_first(rows)[i]),
    decreases rows.len(),
{
    broadcast use vstd::seq_lib::group_to_multiset_ensures;

    if rows.len() > 0 {
        let earlier = rows.drop_last();
        let ordered = newest_first(earlier);
        let last = rows.last();
        assert(hashes_differ(earlier)) by {
            assert forall|i: int, j: int| 0 <= i < j < earlier.len() implies (
            #[trigger] earlier[i]).command.hash@ != (#[trigger] earlier[j]).command.hash@ by {
                assert(earlier[i] == rows[i] && earlier[j] == rows[j]);
            }
        }
        lemma_newest_first(earlier);
        assert forall|i: int| 0 <= i < ordered.len() implies (
        #[trigger] ordered[i]).command.hash@ != last.command.hash@ by {
            let k = choose|k: int| 0 <= k < earlier.len() && earlier[k] == ordered[i];
            assert(rows[k] == ordered[i]);
            assert(rows[rows.len() - 1] == last);
        }
        lemma_placed_ordered(ordered, last);
        assert(rows =~= earlier.push(last));
        let result = newest_first(rows);
        assert forall|i: int| 0 <= i < result.len() implies rows.contains(#[trigger] result[i]) by {
            if result[i] == last {
                assert(rows[rows.len() - 1] == result[i]);
            } else {
                assert(ordered.contains(result[i]));
                let k = choose|k: int| 0 <= k < ordered.len() && ordered[k] == result[i];
                assert(earlier.contains(ordered[k]));
                let m = choose|m: int| 0 <= m < earlier.len() && earlier[m] == ordered[k];
                assert(rows[m] == result[i]);
            }
        }
    } else {
        assert(newest_first(rows) =~= rows);
    }
}

/// What a search finds among the fetched rows, before any filter: every hash once, each with the
/// first row that has it, the newest first and, within a block, in the order of the hashes.
pub proof fn found_rows_are_distinct_and_ordered(rows: Seq<IxSearchTxn>)
    ensures
        ({
            let found = newest_first(first_of_each_hash(rows));
            &&& is_ordered(found)
            &&& hashes_differ(found)
            &&& found.to_multiset() == first_of_each_hash(rows).to_multiset()
            &&& forall|i: int| 0 <= i < found.len() ==> rows.contains(#[trigger] found[i])
            &&& forall|h: Seq<char>| has_hash(rows, h) <==> #[trigger] has_hash(found, h)
        }),
{
    broadcast use vstd::seq_lib::group_to_multiset_ensures;

    let kept = first_of_each_hash(rows);
    let found = newest_first(kept);
    lemma_first_of_each_hash(rows);
    lemma_newest_first(kept);
    assert forall|i: int, j: int| 0 <= i < j < found.len() implies (
    #[trigger] found[i]).command.hash@ != (#[trigger] found[j]).command.hash@ by {
        assert(comes_before(found[i], found[j]));
        crate::text::text_less_total(found[i].command.hash@, found[j].command.hash@);
        if found[i].command.hash@ == found[j].command.hash@ {
            let a = choose|a: int| 0 <= a < kept.len() && kept[a] == found[i];
            let b = choose|b: int| 0 <= b < kept.len() && kept[b] == found[j];
            assert(kept.contains(found[i]) && kept.contains(found[j]));
            if a < b {
                assert(kept[a].command.hash@ != kept[b].command.hash@);
            } else if b < a {
                assert(kept[b].command.hash@ != kept[a].command.hash@);
            } else {
                assert(found[i] == found[j]);
            }
        }
    }
    assert forall|i: int| 0 <= i < found.len() implies rows.contains(#[trigger] found[i]) by {
        assert(kept.contains(found[i]));
        let k = choose|k: int| 0 <= k < kept.len() && kept[k] == found[i];
        assert(rows.contains(kept[k]));
    }
    assert forall|h: Seq<char>| has_hash(rows, h) <==> #[trigger] has_hash(found, h) by {
        if has_hash(kept, h) {
            let k = choose|k: int| 0 <= k < kept.len() && (#[trigger] kept[k]).command.hash@ == h;
            assert(kept.to_multiset().contains(kept[k]));
            assert(found.contains(kept[k]));
            let i = choose|i: int| 0 <= i < found.len() && found[i] == kept[k];
            assert(found[i].command.hash@ == h);
        }
        if has_hash(found, h) {
            let i = choose|i: int| 0 <= i < found.len() && (#[trigger] found[i]).command.hash@ == h;
            assert(kept.contains(found[i]));
            let k = choose|k: int| 0 <= k < kept.len() && kept[k] == found[i];
            assert(kept[k].command.hash@ == h);
        }
    }
}

/// Whether a row has the wanted status, if one is wanted.
pub open spec fn has_status(row: IxSearchTxn, status: Option<TransactionStatus>) -> bool {
    match status {
        Some(wanted) => row.command.is_applied == (wanted == TransactionStatus::Applied),
        None => true,
    }
}

proof fn lemma_filter_keeps(rows: Seq<IxSearchTxn>, keeps: spec_fn(IxSearchTxn) -> bool)
    ensures
        forall|t: IxSearchTxn|
            #[trigger] rows.filter(keeps).contains(t) <==> rows.contains(t) && keeps(t),
        is_ordered(rows) ==> is_ordered(rows.filter(keeps)),
    decreases rows.len(),
{
    reveal(Seq::filter);
    let kept = rows.filter(keeps);
    if rows.len() > 0 {
        let earlier = rows.drop_last();
        let before = earlier.filter(keeps);
        let last = rows.last();
        lemma_filter_keeps(earlier, keeps);
        assert forall|t: IxSearchTxn| #[trigger] kept.contains(t) <==> rows.contains(t)
            && keeps(t) by {
            if kept.contains(t) {
                let k = choose|k: int| 0 <= k < kept.len() && kept[k] == t;
                if k < before.len() {
                    assert(before[k] == t);
                    assert(before.contains(t));
                    let i = choose|i: int| 0 <= i < earlier.len() && earlier[i] == t;
                    assert(rows[i] == t);
                } else {
                    assert(rows[rows.len() - 1] == t);
                }
            }
            if rows.contains(t) && keeps(t) {
                let i = choose|i: int| 0 <= i < rows.len() && rows[i] == t;
                if i < earlier.len() {
                    assert(earlier[i] == t);
                    assert(before.contains(t));
                    let k = choose|k: int| 0 <= k < before.len() && before[k] == t;
                    assert(kept[k] == t);
                } else {
                    assert(kept[kept.len() - 1] == t);
                }
            }
        }
        if is_ordered(rows) {
            assert(is_ordered(earlier)) by {
                assert forall|i: int, j: int| 0 <= i < j < earlier.len() implies comes_before(
                    #[trigger] earlier[i],
                    #[trigger] earlier[j],
                ) by {
                    assert(earlier[i] == rows[i] && earlier[j] == rows[j]);
                }
            }
            assert forall|i: int, j: int| 0 <= i < j < kept.len() implies comes_before(
                #[trigger] kept[i],
                #[trigger] kept[j],
            ) by {
                assert(kept[i] == before[i]);
                if j < before.len() {
                    assert(kept[j] == before[j]);
                } else {
                    assert(before.contains(before[i]));
                    let m = choose|m: int| 0 <= m < earlier.len() && earlier[m] == before[i];
                    assert(rows[m] == before[i]);
                    assert(rows[rows.len() - 1] == kept[j]);
                }
            }
        }
    }
}

proof fn lemma_with_status(rows: Seq<IxSearchTxn>, status: Option<TransactionStatus>)
    ensures
        forall|t: IxSearchTxn|
            #[trigger] with_status(rows, status).contains(t) <==> rows.contains(t) && has_status(
                t,
                status,
            ),
        is_ordered(rows) ==> is_ordered(with_status(rows, status)),
{
    if let Some(wanted) = status {
        lemma_filter_keeps(
            rows,
            |t: IxSearchTxn| t.command.is_applied == (wanted == TransactionStatus::Applied),
        );
    }
}

/// What matches a search: of the fetched rows, taken once for each hash, all those and only those
/// that both status filters let through, and still in order.
pub proof fn matches_pass_both_filters(search: IndexerSearch, rows: Seq<IxSearchTxn>)
    ensures
        is_ordered(search.matches(rows)),
        forall|t: IxSearchTxn|
            #[trigger] search.matches(rows).contains(t) <==> {
                &&& newest_first(first_of_each_hash(rows)).contains(t)
                &&& has_status(t, search.params.status)
                &&& has_status(t, search.params.success_status)
            },
{
    let found = newest_first(first_of_each_hash(rows));
    found_rows_are_distinct_and_ordered(rows);
    lemma_with_status(found, search.params.status);
    lemma_with_status(with_status(found, search.params.status), search.params.success_status);
}

/// Filters that contradict each other let nothing through.
pub proof fn contradicting_filters_match_nothing(
    search: IndexerSearch,
    rows: Seq<IxSearchTxn>,
    wanted: TransactionStatus,
    other: TransactionStatus,
)
    requires
        search.params.status == Some(wanted),
        search.params.success_status == Some(other),
        wanted != other,
    ensures
        search.matches(rows).len() == 0,
{
    matches_pass_both_filters(search, rows);
    if search.matches(rows).len() > 0 {
        assert(search.matches(rows).contains(search.matches(rows)[0]));
    }
}

/// A page holds at most `limit` rows, and the page at the next offset goes on where it ends: both
/// together are one page of both lengths.
pub proof fn pages_follow_each_other(
    rows: Seq<IxSearchTxn>,
    offset: int,
    limit: int,
    next_limit: int,
)
    requires
        0 <= offset,
        0 <= limit,
        0 <= next_limit,
    ensures
        page_of(rows, offset, limit).len() <= limit,
        offset + page_of(rows, offset, limit).len() < rows.len() ==> page_of(
            rows,
            offset,
            limit,
        ).len() == limit,
        page_of(rows, offset, limit) + page_of(
            rows,
            offset + page_of(rows, offset, limit).len(),
            next_limit,
        ) == page_of(rows, offset, limit + next_limit),
{
    let page = page_of(rows, offset, limit);
    assert(page + page_of(rows, offset + page.len(), next_limit) =~= page_of(
        rows,
        offset,
        limit + next_limit,
    ));
}

/// Whether the row at `k` is the first of its hash.
pub open spec fn is_first_of_its_hash(rows: Seq<IxSearchTxn>, k: int) -> bool {
    &&& 0 <= k < rows.len()
    &&& forall|j: int| 0 <= j < k ==> (#[trigger] rows[j]).command.hash@ != rows[k].command.hash@
}

/// A row has a wanted status exactly if it was applied where applied commands are wanted, and not
/// applied where failed ones are. Where none is wanted, every row has it.
pub proof fn wanted_statuses_tell_applied_from_failed(row: IxSearchTxn)
    ensures
        has_status(row, None),
        has_status(row, Some(TransactionStatus::Applied)) <==> row.command.is_applied,
        has_status(row, Some(TransactionStatus::Failed)) <==> !row.command.is_applied,
{
}

proof fn lemma_kept_rows_are_first(rows: Seq<IxSearchTxn>)
    ensures
        forall|k: int| #[trigger]
            is_first_of_its_hash(rows, k) ==> first_of_each_hash(rows).contains(rows[k]),
        forall|t: IxSearchTxn| #[trigger]
            first_of_each_hash(rows).contains(t) ==> exists|k: int| #[trigger]
                is_first_of_its_hash(rows, k) && rows[k] == t,
    decreases rows.len(),
{
    let kept = first_of_each_hash(rows);
    if rows.len() > 0 {
        let earlier = rows.drop_last();
        let before = first_of_each_hash(earlier);
        let last = rows.last();
        lemma_kept_rows_are_first(earlier);
        assert forall|k: int| #[trigger] is_first_of_its_hash(rows, k) implies kept.contains(
            rows[k],
        ) by {
            if k < earlier.len() {
                assert forall|j: int| 0 <= j < k implies (#[trigger] earlier[j]).command.hash@
                    != earlier[k].command.hash@ by {
                    assert(earlier[j] == rows[j]);
                }
                assert(is_first_of_its_hash(earlier, k));
                let i = choose|i: int| 0 <= i < before.len() && before[i] == earlier[k];
                assert(kept[i] == rows[k]);
            } else {
                if has_hash(earlier, last.command.hash@) {
                    let j = choose|j: int|
                        0 <= j < earlier.len() && (#[trigger] earlier[j]).command.hash@
                            == last.command.hash@;
                    assert(rows[j].command.hash@ == rows[k].command.hash@);
                }
                assert(kept[kept.len() - 1] == rows[k]);
            }
        }
        assert forall|t: IxSearchTxn| #[trigger] kept.contains(t) implies exists|k: int|
            #[trigger] is_first_of_its_hash(rows, k) && rows[k] == t by {
            let i = choose|i: int| 0 <= i < kept.len() && kept[i] == t;
            if i < before.len() {
                assert(before[i] == t);
                assert(before.contains(t));
                let k = choose|k: int| #[trigger]
                    is_first_of_its_hash(earlier, k) && earlier[k] == t;
                assert forall|j: int| 0 <= j < k implies (#[trigger] rows[j]).command.hash@
                    != rows[k].command.hash@ by {
                    assert(earlier[j] == rows[j]);
                }
                assert(is_first_of_its_hash(rows, k));
            } else {
                let k = rows.len() - 1;
                assert forall|j: int| 0 <= j < k implies (#[trigger] rows[j]).command.hash@
                    != rows[k].command.hash@ by {
                    assert(earlier[j] == rows[j]);
                }
                assert(is_first_of_its_hash(rows, k));
            }
        }
    }
}

/// What matches a search is exactly those of the fetched rows that are the first of their hash and
/// have the wanted statuses.
pub proof fn matches_are_the_first_rows_with_the_wanted_statuses(
    search: IndexerSearch,
    rows: Seq<IxSearchTxn>,
    t: IxSearchTxn,
)
    ensures
        search.matches(rows).contains(t) <==> {
            &&& exists|k: int| #[trigger] is_first_of_its_hash(rows, k) && rows[k] == t
            &&& has_status(t, search.params.status)
            &&& has_status(t, search.params.success_status)
        },
{
    broadcast use vstd::seq_lib::group_to_multiset_ensures;

    let kept = first_of_each_hash(rows);
    let found = newest_first(kept);
    matches_pass_both_filters(search, rows);
    lemma_kept_rows_are_first(rows);
    lemma_first_of_each_hash(rows);
    lemma_newest_first(kept);
    assert(found.contains(t) <==> kept.contains(t)) by {
        assert(found.to_multiset().contains(t) <==> found.contains(t));
        assert(kept.to_multiset().contains(t) <==> kept.contains(t));
    }
    if exists|k: int| #[trigger] is_first_of_its_hash(rows, k) && rows[k] == t {
        let k = choose|k: int| #[trigger] is_first_of_its_hash(rows, k) && rows[k] == t;
        assert(kept.contains(rows[k]));
    }
}

/// What matches a search never grows newer: no row stands before one of a greater height, and
/// within a height the hashes ascend. So no hash stands twice.
pub proof fn matches_never_grow_newer(
    search: IndexerSearch,
    rows: Seq<IxSearchTxn>,
    i: int,
    j: int,
)
    requires
        0 <= i < j < search.matches(rows).len(),
    ensures
        search.matches(rows)[i].block_height >= search.matches(rows)[j].block_height,
        search.matches(rows)[i].block_height == search.matches(rows)[j].block_height
            ==> crate::text::text_less(
            search.matches(rows)[i].command.hash@,
            search.matches(rows)[j].command.hash@,
        ),
        search.matches(rows)[i].command.hash@ != search.matches(rows)[j].command.hash@,
{
    let matches = search.matches(rows);
    matches_pass_both_filters(search, rows);
    assert(comes_before(matches[i], matches[j]));
    crate::text::text_less_total(matches[i].command.hash@, matches[j].command.hash@);
    if matches[i].command.hash@ == matches[j].command.hash@ {
        assert(matches.contains(matches[i]) && matches.contains(matches[j]));
        matches_are_the_first_rows_with_the_wanted_statuses(search, rows, matches[i]);
        matches_are_the_first_rows_with_the_wanted_statuses(search, rows, matches[j]);
        let a = choose|k: int| #[trigger] is_first_of_its_hash(rows, k) && rows[k] == matches[i];
        let b = choose|k: int| #[trigger] is_first_of_its_hash(rows, k) && rows[k] == matches[j];
        if a < b {
            assert(rows[a].command.hash@ == rows[b].command.hash@);
        } else if b < a {
            assert(rows[b].command.hash@ == rows[a].command.hash@);
        }
        assert(matches[i].block_height == matches[j].block_height);
    }
}

proof fn lemma_page(rows: Seq<IxSearchTxn>, offset: int, limit: int)
    requires
        0 <= offset,
        0 <= limit,
    ensures
        page_of(rows, offset, limit).len() == if offset >= rows.len() {
            0
        } else if offset + limit <= rows.len() {
            limit
        } else {
            rows.len() - offset
        },
        forall|i: int|
            0 <= i < page_of(rows, offset, limit).len() ==> #[trigger] page_of(
                rows,
                offset,
                limit,
            )[i] == rows[offset + i],
{
}

/// A page holds the rows from its offset on, each at its place, as many as there are up to its
/// limit.
pub proof fn pages_hold_the_rows_from_their_offset_on(
    rows: Seq<IxSearchTxn>,
    offset: int,
    limit: int,
    i: int,
)
    requires
        0 <= offset,
        0 <= limit,
    ensures
        0 <= i < page_of(rows, offset, limit).len() <==> (0 <= i < limit && offset + i
            < rows.len()),
        0 <= i < page_of(rows, offset, limit).len() ==> page_of(rows, offset, limit)[i]
            == rows[offset + i],
{
    lemma_page(rows, offset, limit);
}

/// The rows that are fetched cover the page and fifty more; a page without rows counts as one row.
/// Fetching is only refused where that is no 64-bit number.
pub proof fn fetched_rows_cover_the_page(search: IndexerSearch)
    requires
        search.wf(),
    ensures
        search.limit >= 1 ==> row_cap(search.offset as int, search.limit as int) == search.offset
            + search.limit + 50,
        search.limit == 0 ==> row_cap(search.offset as int, search.limit as int) == search.offset
            + 51,
        search.offset + search.limit + 51 <= 0xffff_ffff_ffff_ffff ==> search.cap_fits(),
        search.params.transaction_hash is Some ==> search.cap_fits(),
{
}

/// A search over an account is about the account identifier where there is one, and else about the
/// address.
pub proof fn account_identifier_comes_before_the_address(search: IndexerSearch)
    ensures
        search.params.account_identifier is Some ==> search.account()
            == search.params.account_identifier,
        search.params.account_identifier is None ==> search.account() == search.params.address,
{
}

/// A search can take any two lists whose rows can be counted in 64 bits, and any page that does not
/// begin or end below zero.
pub proof fn small_lists_can_be_searched(
    search: IndexerSearch,
    outgoing: Seq<IxSearchTxn>,
    incoming: Seq<IxSearchTxn>,
)
    ensures
        outgoing.len() + incoming.len() <= 0x7fff_ffff_ffff_ffff ==> search.fits(
            outgoing,
            incoming,
        ),
        search.offset >= 0 && search.limit >= 0 <==> search.wf(),
{
}

/// A search is served by the indexer wherever there is one. It filters by what the request names,
/// and its page is the one that the request asks for, by default the first hundred; the indexer's
/// page takes negative numbers for zero. It gives times only where they are asked for.
pub proof fn searches_are_routed_as_they_are_asked(
    mesh: MinaMesh,
    req: SearchTransactionsRequest,
    token: Option<Seq<char>>,
    route: Result<SearchRoute, MinaMeshError>,
)
    requires
        mesh.routes_search(req, token, route),
    ensures
        route is Err <==> (req.status is Some && req.status->0@ != "applied"@ && req.status->0@
            != "failed"@),
        route matches Err(e) ==> {
            &&& e is Exception
            &&& e->Exception_0@ == "Invalid transaction status: '"@ + req.status->0@
                + "'. Valid statuses are 'applied' and 'failed'"@
        },
        route matches Ok(SearchRoute::Indexer(_)) ==> mesh.indexer is Some,
        route matches Ok(SearchRoute::Archive(_)) ==> mesh.indexer is None,
        route matches Ok(SearchRoute::Indexer(search)) ==> {
            &&& SearchTransactionsQueryParams::are_filters(Ok(search.params), req, token)
            &&& req.limit is None ==> search.limit == 100
            &&& req.limit matches Some(n) ==> search.limit == if n < 0 {
                0
            } else {
                n as int
            }
            &&& req.offset is None ==> search.offset == 0
            &&& req.offset matches Some(n) ==> search.offset == if n < 0 {
                0
            } else {
                n as int
            }
            &&& search.include_timestamp <==> req.include_timestamp == Some(true)
        },
        route matches Ok(SearchRoute::Archive(search)) ==> {
            &&& SearchTransactionsQueryParams::are_filters(Ok(search.params), req, token)
            &&& req.limit is None ==> search.limit == 100
            &&& req.limit matches Some(n) ==> search.limit == n
            &&& req.offset is None ==> search.offset == 0
            &&& req.offset matches Some(n) ==> search.offset == n
            &&& search.include_timestamp <==> req.include_timestamp == Some(true)
        },
{
}

/// Numbers below zero count as zero, and others as themselves.
pub proof fn negative_numbers_count_as_zero(n: int)
    ensures
        n >= 0 ==> not_negative(n) == n,
        n <= 0 ==> not_negative(n) == 0,
{
}

impl<UO, UM, II, IO> TransactionGenerators<UO, UM, II, IO> where
    UO: Fn(&UserCommandMetadata) -> Vec<coinbase_mesh::models::Operation>,
    UM: Fn(&UserCommandMetadata) -> Option<serde_json::Value>,
    II: Fn(&InternalCommandType, i32, i32, &String) -> String,
    IO: Fn(&InternalCommandMetadata) -> Vec<coinbase_mesh::models::Operation>,
 {
    /// A search tells of a row the height and the hash of its block, its command, and its time
    /// where times are asked for and the row's is a number.
    pub proof fn found_rows_are_told(
        &self,
        row: IxSearchTxn,
        include_timestamp: bool,
        found: BlockTransaction,
    )
        requires
            self.presents_indexed(row, include_timestamp, found),
        ensures
            found.block_identifier.index == row.block_height,
            found.block_identifier.hash@ == row.block.state_hash@,
            found.transaction.transaction_identifier.hash@ == row.command.hash@,
            self.presents_user(row.command.metadata(), found.transaction),
            !include_timestamp ==> found.timestamp is None,
            include_timestamp ==> found.timestamp == match crate::text::parsed_i64(
                row.block.date_time@,
            ) {
                Ok(n) => Some(n as i64),
                Err(_) => None,
            },
    {
    }

    /// An answer over the indexer is the newest first: no transaction stands before one of a
    /// greater height, and within a height the hashes ascend. No hash stands twice.
    pub proof fn answers_are_newest_first(
        &self,
        search: IndexerSearch,
        rows: Seq<IxSearchTxn>,
        response: SearchTransactionsResponse,
        i: int,
        j: int,
    )
        requires
            search.wf(),
            self.answers_indexed(search, rows, response),
            0 <= i < j < response.transactions@.len(),
        ensures
            ({
                let a = response.transactions@[i];
                let b = response.transactions@[j];
                let a_hash = a.transaction.transaction_identifier.hash@;
                let b_hash = b.transaction.transaction_identifier.hash@;
                &&& a.block_identifier.index >= b.block_identifier.index
                &&& a.block_identifier.index == b.block_identifier.index ==> crate::text::text_less(
                    a_hash,
                    b_hash,
                )
                &&& a_hash != b_hash
            }),
    {
        let matches = search.matches(rows);
        let page = page_of(matches, search.offset as int, search.limit as int);
        lemma_page(matches, search.offset as int, search.limit as int);
        assert(self.presents_indexed(
            page[i],
            search.include_timestamp,
            response.transactions@[i],
        ));
        assert(self.presents_indexed(
            page[j],
            search.include_timestamp,
            response.transactions@[j],
        ));
        matches_never_grow_newer(search, rows, search.offset + i, search.offset + j);
    }

    /// An answer over the indexer tells fetched rows and no others: each transaction is that of the
    /// first row of its hash, and that row has the wanted statuses.
    pub proof fn answers_tell_fetched_rows(
        &self,
        search: IndexerSearch,
        rows: Seq<IxSearchTxn>,
        response: SearchTransactionsResponse,
        i: int,
    ) -> (k: int)
        requires
            search.wf(),
            self.answers_indexed(search, rows, response),
            0 <= i < response.transactions@.len(),
        ensures
            is_first_of_its_hash(rows, k),
            has_status(rows[k], search.params.status),
            has_status(rows[k], search.params.success_status),
            self.presents_indexed(rows[k], search.include_timestamp, response.transactions@[i]),
            response.transactions@[i].transaction.transaction_identifier.hash@
                == rows[k].command.hash@,
            response.transactions@[i].block_identifier.index == rows[k].block_height,
    {
        let matches = search.matches(rows);
        let page = page_of(matches, search.offset as int, search.limit as int);
        lemma_page(matches, search.offset as int, search.limit as int);
        assert(self.presents_indexed(
            page[i],
            search.include_timestamp,
            response.transactions@[i],
        ));
        let t = matches[search.offset + i];
        assert(matches.contains(t));
        matches_are_the_first_rows_with_the_wanted_statuses(search, rows, t);
        choose|k: int| #[trigger] is_first_of_its_hash(rows, k) && rows[k] == t
    }

    /// An answer over the indexer leaves no row out: where its page begins with the first row and
    /// is as long as all of them, every row that is the first of its hash and has the wanted
    /// statuses is told.
    pub proof fn answers_leave_no_row_out(
        &self,
        search: IndexerSearch,
        rows: Seq<IxSearchTxn>,
        response: SearchTransactionsResponse,
        k: int,
    ) -> (i: int)
        requires
            search.offset == 0,
            search.limit >= rows.len(),
            self.answers_indexed(search, rows, response),
            is_first_of_its_hash(rows, k),
            has_status(rows[k], search.params.status),
            has_status(rows[k], search.params.success_status),
        ensures
            0 <= i < response.transactions@.len(),
            self.presents_indexed(rows[k], search.include_timestamp, response.transactions@[i]),
            response.transactions@[i].transaction.transaction_identifier.hash@
                == rows[k].command.hash@,
    {
        let matches = search.matches(rows);
        let page = page_of(matches, search.offset as int, search.limit as int);
        lemma_page(matches, search.offset as int, search.limit as int);
        lemma_matches_len(search, rows);
        matches_are_the_first_rows_with_the_wanted_statuses(search, rows, rows[k]);
        let i = choose|i: int| 0 <= i < matches.len() && matches[i] == rows[k];
        assert(page[i] == rows[k]);
        assert(self.presents_indexed(
            page[i],
            search.include_timestamp,
            response.transactions@[i],
        ));
        i
    }

    /// The pages of one search are pieces of one list: whatever page is asked for, the count is the
    /// same, the page is as long as its limit and the count allow, it holds at each place what the
    /// whole list holds that far behind its offset, and the next offset is where it ends, if the
    /// list goes on there. The whole list is as long as the count.
    pub proof fn pages_are_pieces_of_one_list(
        &self,
        search: IndexerSearch,
        whole: IndexerSearch,
        rows: Seq<IxSearchTxn>,
        response: SearchTransactionsResponse,
        all: SearchTransactionsResponse,
        i: int,
    )
        requires
            search.wf(),
            search.params == whole.params,
            whole.offset == 0,
            whole.limit >= rows.len(),
            rows.len() <= i64::MAX,
            self.answers_indexed(search, rows, response),
            self.answers_indexed(whole, rows, all),
        ensures
            all.transactions@.len() == all.total_count,
            all.next_offset is None,
            response.total_count == all.total_count,
            0 <= i < response.transactions@.len() <==> (0 <= i < search.limit && search.offset + i
                < response.total_count),
            0 <= i < response.transactions@.len() ==> {
                let a = response.transactions@[i];
                let b = all.transactions@[search.offset + i];
                &&& a.block_identifier@ == b.block_identifier@
                &&& a.transaction.transaction_identifier.hash@
                    == b.transaction.transaction_identifier.hash@
            },
            response.next_offset is Some <==> search.offset + response.transactions@.len()
                < response.total_count,
            response.next_offset matches Some(next) ==> next == search.offset
                + response.transactions@.len(),
    {
        let matches = search.matches(rows);
        let page = page_of(matches, search.offset as int, search.limit as int);
        let list = page_of(matches, 0, whole.limit as int);
        lemma_page(matches, search.offset as int, search.limit as int);
        lemma_page(matches, 0, whole.limit as int);
        lemma_matches_len(search, rows);
        if 0 <= i < response.transactions@.len() {
            assert(self.presents_indexed(
                page[i],
                search.include_timestamp,
                response.transactions@[i],
            ));
            assert(self.presents_indexed(
                list[search.offset + i],
                whole.include_timestamp,
                all.transactions@[search.offset + i],
            ));
        }
    }
}

/// The indexer is asked for the named transaction, wherever one is named; else for the commands of
/// the account, by its identifier or else its address, up to the greatest height, in 32 bits, and
/// for the page and fifty rows more. Without any of these it is asked for nothing.
pub proof fn indexer_is_asked_for_what_is_named(search: IndexerSearch, lookup: IndexerLookup)
    requires
        search.wf(),
        call_ensures(IndexerSearch::lookup, (&search,), lookup),
    ensures
        lookup is Transaction <==> search.params.transaction_hash is Some,
        lookup is Nothing <==> search.params.transaction_hash is None
            && search.params.account_identifier is None && search.params.address is None,
        lookup matches IndexerLookup::Transaction(hash) ==> search.params.transaction_hash == Some(
            hash,
        ),
        lookup matches IndexerLookup::Account { public_key, max_height, cap } ==> {
            &&& search.params.account_identifier is Some ==> search.params.account_identifier
                == Some(public_key)
            &&& search.params.account_identifier is None ==> search.params.address == Some(
                public_key,
            )
            &&& search.params.max_block is None <==> max_height is None
            &&& search.params.max_block matches Some(n) ==> (0 <= n < 0x1_0000_0000
                ==> max_height->0 == n)
            &&& cap >= search.offset + search.limit + 50
            &&& cap <= search.offset + search.limit + 51
            &&& search.limit > 0 ==> cap == search.offset + search.limit + 50
        },
{
}

/// What was looked up by its hash is the only row, if it was found.
pub proof fn looked_up_transaction_is_the_only_row(
    found: Option<IxSearchTxn>,
    rows: Vec<IxSearchTxn>,
)
    requires
        call_ensures(IndexerSearch::transaction_rows, (found,), rows),
    ensures
        found is None <==> rows@.len() == 0,
        found matches Some(t) ==> rows@.len() == 1 && rows@[0] == t,
{
}

} // verus!
