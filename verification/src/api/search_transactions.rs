//! The search endpoint: what a request filters by, and the queries to the archive.

use vstd::prelude::*;

use crate::archive::{ArchiveQuery, SqlArg};
use crate::error::MinaMeshError;
use crate::json::{json_as_str, json_get};
use crate::mesh::MinaMesh;
use crate::text::{decimal_i64, to_quoted};
use crate::types::{copy_text, SearchTransactionsRequest, TransactionStatus};

verus! {

/// What a search filters by.
#[derive(Debug)]
pub struct SearchTransactionsQueryParams {
    pub max_block: Option<i64>,
    pub transaction_hash: Option<String>,
    pub account_identifier: Option<String>,
    pub token_id: Option<String>,
    pub status: Option<TransactionStatus>,
    pub success_status: Option<TransactionStatus>,
    pub address: Option<String>,
}

impl SearchTransactionsRequest {
    /// The member `token_id` of the account's metadata, if there is one: its text, or `None` if it
    /// is no string.
    pub open spec fn token_member(self) -> Option<Option<Seq<char>>> {
        match self.account_identifier {
            Some(account) => match account.metadata {
                Some(metadata) => {
                    let members = crate::json::json_members(metadata);
                    if members.contains_key("token_id"@) {
                        Some(members["token_id"@])
                    } else {
                        None
                    }
                },
                None => None,
            },
            None => None,
        }
    }

    /// Whether the token id, if the request names one, is a string.
    pub open spec fn token_is_text(self) -> bool {
        self.token_member() != Some(None::<Seq<char>>)
    }

    /// The token id that the request names.
    pub open spec fn token_text(self) -> Option<Seq<char>> {
        match self.token_member() {
            Some(text) => text,
            None => None,
        }
    }

    /// Whether the request names a transaction status that there is, or none.
    pub open spec fn status_is_valid(self) -> bool {
        self.status matches Some(s) ==> s@ == "applied"@ || s@ == "failed"@
    }

    /// The message for a status that there is not.
    pub open spec fn status_message(self) -> Seq<char> {
        "Invalid transaction status: '"@ + crate::types::or_empty(self.status.deep_view())
            + "'. Valid statuses are 'applied' and 'failed'"@
    }
}

/// The status of which it is said whether the commands were successful.
pub open spec fn status_of_success(success: Option<bool>) -> Option<TransactionStatus> {
    match success {
        Some(true) => Some(TransactionStatus::Applied),
        Some(false) => Some(TransactionStatus::Failed),
        None => None,
    }
}

/// The status that a valid text names.
pub open spec fn status_of_text(status: Option<Seq<char>>) -> Option<TransactionStatus> {
    match status {
        Some(s) => if s == "applied"@ {
            Some(TransactionStatus::Applied)
        } else {
            Some(TransactionStatus::Failed)
        },
        None => None,
    }
}

/// What a request's token id turned out to be.
enum TokenId {
    Absent,
    Text(String),
    NoText,
}

fn token_id(req: &SearchTransactionsRequest) -> (token: TokenId)
    ensures
        match req.token_member() {
            None => token is Absent,
            Some(Some(text)) => token matches TokenId::Text(t) && t@ == text,
            Some(None) => token is NoText,
        },
{
    match &req.account_identifier {
        Some(account) => match &account.metadata {
            Some(metadata) => match json_get(metadata, "token_id") {
                Some(member) => match json_as_str(member) {
                    Some(text) => TokenId::Text(text.to_owned()),
                    None => TokenId::NoText,
                },
                None => TokenId::Absent,
            },
            None => TokenId::Absent,
        },
        None => TokenId::Absent,
    }
}

impl SearchTransactionsQueryParams {
    /// Whether these are the filters of a request, whose token id is `token`.
    pub open spec fn filters(self, req: SearchTransactionsRequest, token: Option<Seq<char>>) -> bool {
        &&& self.max_block == req.max_block
        &&& self.transaction_hash == match req.transaction_identifier {
            Some(t) => Some(t.hash),
            None => None,
        }
        &&& self.account_identifier == match req.account_identifier {
            Some(a) => Some(a.address),
            None => None,
        }
        &&& self.token_id.deep_view() == token
        &&& self.status == status_of_text(req.status.deep_view())
        &&& self.success_status == status_of_success(req.success)
        &&& self.address == req.address
    }

    /// Whether `params` are the filters of a request, whose token id is `token`, or, where the
    /// request names a status that there is not, the error that says so.
    pub open spec fn are_filters(
        params: Result<SearchTransactionsQueryParams, MinaMeshError>,
        req: SearchTransactionsRequest,
        token: Option<Seq<char>>,
    ) -> bool {
        if req.status_is_valid() {
            params matches Ok(p) && p.filters(req, token)
        } else {
            params matches Err(e) && e.is_exception(req.status_message())
        }
    }

    /// The filters of a request whose token id was found to be `token_id`.
    pub fn with_token(req: &SearchTransactionsRequest, token_id: Option<String>) -> (params: Result<
        SearchTransactionsQueryParams,
        MinaMeshError,
    >)
        ensures
            Self::are_filters(params, *req, token_id.deep_view()),
    {
        let transaction_hash = match &req.transaction_identifier {
            Some(t) => Some(t.hash.clone()),
            None => None,
        };
        let account_identifier = match &req.account_identifier {
            Some(a) => Some(a.address.clone()),
            None => None,
        };
        let status = match &req.status {
            Some(s) => {
                if *s == "applied".to_owned() {
                    Some(TransactionStatus::Applied)
                } else if *s == "failed".to_owned() {
                    proof {
                        reveal_strlit("applied");
                        reveal_strlit("failed");
                    }
                    Some(TransactionStatus::Failed)
                } else {
                    let mut message = "Invalid transaction status: '".to_owned();
                    message.append(s.as_str());
                    message.append("'. Valid statuses are 'applied' and 'failed'");
                    return Err(MinaMeshError::Exception(message));
                }
            },
            None => None,
        };
        let success_status = match req.success {
            Some(true) => Some(TransactionStatus::Applied),
            Some(false) => Some(TransactionStatus::Failed),
            None => None,
        };
        Ok(
            SearchTransactionsQueryParams {
                max_block: req.max_block,
                transaction_hash,
                account_identifier,
                token_id,
                status,
                success_status,
                address: copy_text(&req.address),
            },
        )
    }

    /// The filters of a request whose token id, if it names one, is a string.
    pub fn try_from(req: &SearchTransactionsRequest) -> (params: Result<
        SearchTransactionsQueryParams,
        MinaMeshError,
    >)
        requires
            req.token_is_text(),
        ensures
            Self::are_filters(params, *req, req.token_text()),
    {
        let token_id = match token_id(req) {
            TokenId::Text(text) => Some(text),
            _ => None,
        };
        SearchTransactionsQueryParams::with_token(req, token_id)
    }

    /// The filters of a request, or `None` where it names a token id that is no string.
    pub fn checked_try_from(req: &SearchTransactionsRequest) -> (params: Option<
        Result<SearchTransactionsQueryParams, MinaMeshError>,
    >)
        ensures
            params is Some <==> req.token_is_text(),
            params matches Some(result) ==> Self::are_filters(result, *req, req.token_text()),
    {
        match token_id(req) {
            TokenId::NoText => None,
            _ => Some(SearchTransactionsQueryParams::try_from(req)),
        }
    }
}

/// An optional value that reads `text`, as `Debug` formats it.
pub open spec fn option_text(text: Option<Seq<char>>) -> Seq<char> {
    match text {
        Some(t) => "Some("@ + t + ")"@,
        None => "None"@,
    }
}

/// An optional number, as `Debug` formats it.
pub open spec fn integer_text(value: Option<i64>) -> Seq<char> {
    option_text(
        match value {
            Some(n) => Some(crate::text::decimal_int(n as int)),
            None => None,
        },
    )
}

/// An optional text, in quotes as `Debug` formats it.
pub open spec fn quoted_text(value: Option<Seq<char>>) -> Option<Seq<char>> {
    match value {
        Some(t) => Some(crate::text::quoted(t)),
        None => None,
    }
}

/// An optional status, as `Debug` formats it.
pub open spec fn status_text(value: Option<TransactionStatus>) -> Seq<char> {
    option_text(
        match value {
            Some(TransactionStatus::Applied) => Some("Applied"@),
            Some(TransactionStatus::Failed) => Some("Failed"@),
            None => None,
        },
    )
}

/// Formats an optional value that reads `text`, as `Debug` does.
pub(crate) fn show_option(text: Option<String>) -> (shown: String)
    ensures
        shown@ == option_text(text.deep_view()),
{
    match text {
        Some(t) => {
            let mut shown = "Some(".to_owned();
            shown.append(t.as_str());
            shown.append(")");
            shown
        },
        None => "None".to_owned(),
    }
}

fn in_quotes(value: &Option<String>) -> (quoted: Option<String>)
    ensures
        quoted.deep_view() == quoted_text(value.deep_view()),
{
    match value {
        Some(t) => Some(to_quoted(t.as_str())),
        None => None,
    }
}

fn show_status(value: Option<TransactionStatus>) -> (shown: String)
    ensures
        shown@ == status_text(value),
{
    let name = match value {
        Some(TransactionStatus::Applied) => Some("Applied".to_owned()),
        Some(TransactionStatus::Failed) => Some("Failed".to_owned()),
        None => None,
    };
    show_option(name)
}

impl SearchTransactionsQueryParams {
    /// The filters in one line, where the texts among them read like this in quotes.
    pub open spec fn text_with(
        self,
        transaction_hash: Option<Seq<char>>,
        account_identifier: Option<Seq<char>>,
        token_id: Option<Seq<char>>,
        address: Option<Seq<char>>,
    ) -> Seq<char> {
        "max_block: "@ + integer_text(self.max_block) + ", transaction_hash: "@ + option_text(
            transaction_hash,
        ) + ", account_identifier: "@ + option_text(account_identifier) + ", token_id: "@
            + option_text(token_id) + ", status: "@ + status_text(self.status)
            + ", success_status: "@ + status_text(self.success_status) + ", address: "@
            + option_text(address)
    }

    /// The filters in one line.
    pub open spec fn text(self) -> Seq<char> {
        self.text_with(
            quoted_text(self.transaction_hash.deep_view()),
            quoted_text(self.account_identifier.deep_view()),
            quoted_text(self.token_id.deep_view()),
            quoted_text(self.address.deep_view()),
        )
    }

    /// Writes the filters in one line, where the texts among them read like this in quotes.
    pub fn to_text_with(
        &self,
        transaction_hash: Option<String>,
        account_identifier: Option<String>,
        token_id: Option<String>,
        address: Option<String>,
    ) -> (text: String)
        ensures
            text@ == self.text_with(
                transaction_hash.deep_view(),
                account_identifier.deep_view(),
                token_id.deep_view(),
                address.deep_view(),
            ),
    {
        let max_block = match self.max_block {
            Some(n) => Some(decimal_i64(n)),
            None => None,
        };
        let mut text = "max_block: ".to_owned();
        text.append(show_option(max_block).as_str());
        text.append(", transaction_hash: ");
        text.append(show_option(transaction_hash).as_str());
        text.append(", account_identifier: ");
        text.append(show_option(account_identifier).as_str());
        text.append(", token_id: ");
        text.append(show_option(token_id).as_str());
        text.append(", status: ");
        text.append(show_status(self.status).as_str());
        text.append(", success_status: ");
        text.append(show_status(self.success_status).as_str());
        text.append(", address: ");
        text.append(show_option(address).as_str());
        text
    }

    /// Writes the filters in one line.
    pub fn to_text(&self) -> (text: String)
        ensures
            text@ == self.text(),
    {
        self.to_text_with(
            in_quotes(&self.transaction_hash),
            in_quotes(&self.account_identifier),
            in_quotes(&self.token_id),
            in_quotes(&self.address),
        )
    }

    /// The parameters of a search query to the archive, for the page of `limit` rows behind the
    /// first `offset`.
    pub open spec fn search_args(self, offset: i64, limit: i64) -> Seq<SqlArg> {
        seq![
            SqlArg::Integer(self.max_block),
            SqlArg::Text(self.transaction_hash),
            SqlArg::Text(self.account_identifier),
            SqlArg::Text(self.token_id),
            SqlArg::Status(self.status),
            SqlArg::Status(self.success_status),
            SqlArg::Text(self.address),
            SqlArg::Integer(Some(limit)),
            SqlArg::Integer(Some(offset)),
        ]
    }

    fn to_args(&self, offset: i64, limit: i64) -> (args: Vec<SqlArg>)
        ensures
            args@ == self.search_args(offset, limit),
    {
        let mut args: Vec<SqlArg> = Vec::new();
        args.push(SqlArg::Integer(self.max_block));
        args.push(SqlArg::Text(copy_text(&self.transaction_hash)));
        args.push(SqlArg::Text(copy_text(&self.account_identifier)));
        args.push(SqlArg::Text(copy_text(&self.token_id)));
        args.push(SqlArg::Status(self.status));
        args.push(SqlArg::Status(self.success_status));
        args.push(SqlArg::Text(copy_text(&self.address)));
        args.push(SqlArg::Integer(Some(limit)));
        args.push(SqlArg::Integer(Some(offset)));
        proof {
            assert(args@ =~= self.search_args(offset, limit));
        }
        args
    }
}

impl MinaMesh {
    /// The file of the query for user commands.
    pub open spec fn user_search_file(self) -> Seq<char> {
        if self.search_tx_optimized {
            "sql/queries/indexer_user_commands_optimized.sql"@
        } else {
            "sql/queries/indexer_user_commands.sql"@
        }
    }

    /// The file of the query for internal commands.
    pub open spec fn internal_search_file(self) -> Seq<char> {
        if self.search_tx_optimized {
            "sql/queries/indexer_internal_commands_optimized.sql"@
        } else {
            "sql/queries/indexer_internal_commands.sql"@
        }
    }

    /// The file of the query for zkApp commands.
    pub open spec fn zkapp_search_file(self) -> Seq<char> {
        if self.search_tx_optimized {
            "sql/queries/indexer_zkapp_commands_optimized.sql"@
        } else {
            "sql/queries/indexer_zkapp_commands.sql"@
        }
    }

    /// Asks for a page of the user commands that a search matches.
    pub fn fetch_user_commands(
        &self,
        query_params: &SearchTransactionsQueryParams,
        offset: i64,
        limit: i64,
    ) -> (query: Result<ArchiveQuery, MinaMeshError>)
        ensures
            self.asks_archive(
                query,
                self.user_search_file(),
                query_params.search_args(offset, limit),
            ),
            query matches Ok(q) ==> {
                &&& q.args@.len() == 9
                &&& q.args@[0] == SqlArg::Integer(query_params.max_block)
                &&& q.args@[1] == SqlArg::Text(query_params.transaction_hash)
                &&& q.args@[2] == SqlArg::Text(query_params.account_identifier)
                &&& q.args@[3] == SqlArg::Text(query_params.token_id)
                &&& q.args@[4] == SqlArg::Status(query_params.status)
                &&& q.args@[5] == SqlArg::Status(query_params.success_status)
                &&& q.args@[6] == SqlArg::Text(query_params.address)
                &&& q.args@[7] == SqlArg::Integer(Some(limit))
                &&& q.args@[8] == SqlArg::Integer(Some(offset))
            },
    {
        let file = if self.search_tx_optimized {
            "sql/queries/indexer_user_commands_optimized.sql"
        } else {
            "sql/queries/indexer_user_commands.sql"
        };
        self.archive_query(file, query_params.to_args(offset, limit))
    }

    /// Asks for a page of the internal commands that a search matches.
    pub fn fetch_internal_commands(
        &self,
        query_params: &SearchTransactionsQueryParams,
        offset: i64,
        limit: i64,
    ) -> (query: Result<ArchiveQuery, MinaMeshError>)
        ensures
            self.asks_archive(
                query,
                self.internal_search_file(),
                query_params.search_args(offset, limit),
            ),
            query matches Ok(q) ==> {
                &&& q.args@.len() == 9
                &&& q.args@[0] == SqlArg::Integer(query_params.max_block)
                &&& q.args@[1] == SqlArg::Text(query_params.transaction_hash)
                &&& q.args@[2] == SqlArg::Text(query_params.account_identifier)
                &&& q.args@[3] == SqlArg::Text(query_params.token_id)
                &&& q.args@[4] == SqlArg::Status(query_params.status)
                &&& q.args@[5] == SqlArg::Status(query_params.success_status)
                &&& q.args@[6] == SqlArg::Text(query_params.address)
                &&& q.args@[7] == SqlArg::Integer(Some(limit))
                &&& q.args@[8] == SqlArg::Integer(Some(offset))
            },
    {
        let file = if self.search_tx_optimized {
            "sql/queries/indexer_internal_commands_optimized.sql"
        } else {
            "sql/queries/indexer_internal_commands.sql"
        };
        self.archive_query(file, query_params.to_args(offset, limit))
    }

    /// Asks for a page of the zkApp commands that a search matches.
    pub fn fetch_zkapp_commands(
        &self,
        query_params: &SearchTransactionsQueryParams,
        offset: i64,
        limit: i64,
    ) -> (query: Result<ArchiveQuery, MinaMeshError>)
        ensures
            self.asks_archive(
                query,
                self.zkapp_search_file(),
                query_params.search_args(offset, limit),
            ),
            query matches Ok(q) ==> {
                &&& q.args@.len() == 9
                &&& q.args@[0] == SqlArg::Integer(query_params.max_block)
                &&& q.args@[1] == SqlArg::Text(query_params.transaction_hash)
                &&& q.args@[2] == SqlArg::Text(query_params.account_identifier)
                &&& q.args@[3] == SqlArg::Text(query_params.token_id)
                &&& q.args@[4] == SqlArg::Status(query_params.status)
                &&& q.args@[5] == SqlArg::Status(query_params.success_status)
                &&& q.args@[6] == SqlArg::Text(query_params.address)
                &&& q.args@[7] == SqlArg::Integer(Some(limit))
                &&& q.args@[8] == SqlArg::Integer(Some(offset))
            },
    {
        let file = if self.search_tx_optimized {
            "sql/queries/indexer_zkapp_commands_optimized.sql"
        } else {
            "sql/queries/indexer_zkapp_commands.sql"
        };
        self.archive_query(file, query_params.to_args(offset, limit))
    }
}

/// `n` less `taken`, or zero if that is more.
pub open spec fn rest(n: int, taken: int) -> int {
    if n >= taken {
        n - taken
    } else {
        0
    }
}

/// What is left of a page, as offset and limit, once `txs_len` transactions of it have been found.
pub fn adjust_limit_and_offset(limit: i64, offset: i64, txs_len: i64) -> (rest_of_page: (i64, i64))
    requires
        rest(offset as int, txs_len as int) <= i64::MAX,
        rest(limit as int, txs_len as int) <= i64::MAX,
    ensures
        rest_of_page.0 == rest(offset as int, txs_len as int),
        rest_of_page.1 == rest(limit as int, txs_len as int),
{
    let rest_of_offset: i64 = if offset >= txs_len {
        offset - txs_len
    } else {
        0
    };
    let rest_of_limit: i64 = if limit >= txs_len {
        limit - txs_len
    } else {
        0
    };
    (rest_of_offset, rest_of_limit)
}

/// Every filter stands at its own parameter of a search query, and the page behind them: the limit,
/// then the offset.
pub proof fn every_filter_has_its_own_place(
    mesh: MinaMesh,
    query: ArchiveQuery,
    file: Seq<char>,
    params: SearchTransactionsQueryParams,
    offset: i64,
    limit: i64,
)
    requires
        mesh.asks_archive(Ok(query), file, params.search_args(offset, limit)),
    ensures
        query.file@ == file,
        query.args@.len() == 9,
        query.args@[0] == SqlArg::Integer(params.max_block),
        query.args@[1] == SqlArg::Text(params.transaction_hash),
        query.args@[2] == SqlArg::Text(params.account_identifier),
        query.args@[3] == SqlArg::Text(params.token_id),
        query.args@[4] == SqlArg::Status(params.status),
        query.args@[5] == SqlArg::Status(params.success_status),
        query.args@[6] == SqlArg::Text(params.address),
        query.args@[7] == SqlArg::Integer(Some(limit)),
        query.args@[8] == SqlArg::Integer(Some(offset)),
{
}

/// Two searches ask the same only if they filter by the same and want the same page: no filter is
/// lost in the query, and none is taken for another.
pub proof fn different_searches_ask_different_queries(
    a: SearchTransactionsQueryParams,
    a_offset: i64,
    a_limit: i64,
    b: SearchTransactionsQueryParams,
    b_offset: i64,
    b_limit: i64,
)
    requires
        a.search_args(a_offset, a_limit) == b.search_args(b_offset, b_limit),
    ensures
        a == b,
        a_offset == b_offset,
        a_limit == b_limit,
{
    let x = a.search_args(a_offset, a_limit);
    let y = b.search_args(b_offset, b_limit);
    assert(x[0] == y[0] && x[1] == y[1] && x[2] == y[2] && x[3] == y[3] && x[4] == y[4]);
    assert(x[5] == y[5] && x[6] == y[6] && x[7] == y[7] && x[8] == y[8]);
}

/// The optimized queries are asked exactly where the optimizations are on, and each kind of command
/// has its own.
pub proof fn optimizations_pick_the_queries(mesh: MinaMesh)
    ensures
        mesh.search_tx_optimized ==> {
            &&& mesh.user_search_file() == "sql/queries/indexer_user_commands_optimized.sql"@
            &&& mesh.internal_search_file()
                == "sql/queries/indexer_internal_commands_optimized.sql"@
            &&& mesh.zkapp_search_file() == "sql/queries/indexer_zkapp_commands_optimized.sql"@
        },
        !mesh.search_tx_optimized ==> {
            &&& mesh.user_search_file() == "sql/queries/indexer_user_commands.sql"@
            &&& mesh.internal_search_file() == "sql/queries/indexer_internal_commands.sql"@
            &&& mesh.zkapp_search_file() == "sql/queries/indexer_zkapp_commands.sql"@
        },
{
}

/// The filters of a search are what its request names, each of them; where the request names
/// nothing, nothing is filtered by.
pub proof fn filters_are_what_the_request_names(
    params: SearchTransactionsQueryParams,
    req: SearchTransactionsRequest,
    token: Option<Seq<char>>,
)
    requires
        SearchTransactionsQueryParams::are_filters(Ok(params), req, token),
    ensures
        params.max_block == req.max_block,
        req.transaction_identifier matches Some(t) ==> params.transaction_hash == Some(t.hash),
        req.transaction_identifier is None ==> params.transaction_hash is None,
        req.account_identifier matches Some(a) ==> params.account_identifier == Some(a.address),
        req.account_identifier is None ==> params.account_identifier is None,
        params.address == req.address,
        params.token_id matches Some(t) ==> token == Some(t@),
        params.token_id is None ==> token is None,
        req.status is None <==> params.status is None,
        req.status matches Some(s) ==> {
            &&& s@ == "applied"@ <==> params.status == Some(TransactionStatus::Applied)
            &&& s@ == "failed"@ <==> params.status == Some(TransactionStatus::Failed)
        },
        req.success is None <==> params.success_status is None,
        req.success == Some(true) <==> params.success_status == Some(TransactionStatus::Applied),
        req.success == Some(false) <==> params.success_status == Some(TransactionStatus::Failed),
{
    reveal_strlit("applied");
    reveal_strlit("failed");
    assert("applied"@.len() != "failed"@.len());
}

/// A request is refused exactly if it names a status other than the two that there are, and is
/// told which one that was.
pub proof fn only_unknown_statuses_are_refused(
    params: Result<SearchTransactionsQueryParams, MinaMeshError>,
    req: SearchTransactionsRequest,
    token: Option<Seq<char>>,
)
    requires
        SearchTransactionsQueryParams::are_filters(params, req, token),
    ensures
        params is Err <==> (req.status is Some && req.status->0@ != "applied"@ && req.status->0@
            != "failed"@),
        params matches Err(e) ==> {
            &&& e is Exception
            &&& e->Exception_0@ == "Invalid transaction status: '"@ + req.status->0@
                + "'. Valid statuses are 'applied' and 'failed'"@
        },
{
}

/// The token id of a request is the text of the member `token_id` of its account's metadata, and
/// nothing else of the request. Only a member that is no string is no token id.
pub proof fn token_id_is_the_member_of_the_metadata(req: SearchTransactionsRequest)
    ensures
        req.account_identifier is None ==> req.token_is_text() && req.token_text() is None,
        req.account_identifier matches Some(a) ==> match a.metadata {
            None => req.token_is_text() && req.token_text() is None,
            Some(m) => {
                let members = crate::json::json_members(m);
                &&& !members.contains_key("token_id"@) ==> req.token_is_text()
                    && req.token_text() is None
                &&& members.contains_key("token_id"@) ==> req.token_text() == members["token_id"@]
                &&& members.contains_key("token_id"@) ==> (req.token_is_text()
                    <==> members["token_id"@] is Some)
            },
        },
{
}

/// The filters read, in one line, each under its name and in their order, as `Debug` writes them.
pub proof fn filters_read_under_their_names(params: SearchTransactionsQueryParams)
    ensures
        params.text() == "max_block: "@ + integer_text(params.max_block) + ", transaction_hash: "@
            + option_text(quoted_text(crate::types::text_of(params.transaction_hash)))
            + ", account_identifier: "@ + option_text(
            quoted_text(crate::types::text_of(params.account_identifier)),
        ) + ", token_id: "@ + option_text(quoted_text(crate::types::text_of(params.token_id)))
            + ", status: "@ + status_text(params.status) + ", success_status: "@ + status_text(
            params.success_status,
        ) + ", address: "@ + option_text(quoted_text(crate::types::text_of(params.address))),
{
}

/// How the filters read: a number in decimal, a text in quotes and a status by its name, within
/// `Some(..)`, and `None` for what is not filtered by.
pub proof fn options_read_as_debug_writes_them(n: i64, text: Seq<char>)
    ensures
        option_text(Some(text)) == "Some("@ + text + ")"@,
        option_text(None) == "None"@,
        integer_text(Some(n)) == "Some("@ + crate::text::decimal_int(n as int) + ")"@,
        integer_text(None) == "None"@,
        quoted_text(Some(text)) == Some(crate::text::quoted(text)),
        quoted_text(None) is None,
        status_text(Some(TransactionStatus::Applied)) == "Some("@ + "Applied"@ + ")"@,
        status_text(Some(TransactionStatus::Failed)) == "Some("@ + "Failed"@ + ")"@,
        status_text(None) == "None"@,
{
}

/// What is taken from a page and what is left of it make the page, and nothing is left where more
/// is taken than there is.
pub proof fn rest_is_what_is_not_taken(n: int, taken: int)
    ensures
        taken <= n ==> rest(n, taken) + taken == n,
        taken >= n ==> rest(n, taken) == 0,
{
}

/// What is left of a page is less by what has been found, and not below zero: the offset first,
/// then the limit.
pub proof fn rest_of_a_page_is_less_by_what_is_found(
    limit: i64,
    offset: i64,
    found: i64,
    rest_of_page: (i64, i64),
)
    requires
        call_ensures(adjust_limit_and_offset, (limit, offset, found), rest_of_page),
    ensures
        found <= offset ==> rest_of_page.0 == offset - found,
        found >= offset ==> rest_of_page.0 == 0,
        found <= limit ==> rest_of_page.1 == limit - found,
        found >= limit ==> rest_of_page.1 == 0,
{
}

} // verus!
