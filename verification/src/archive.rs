//! Queries to the Postgres archive.

use vstd::prelude::*;

use crate::types::TransactionStatus;

verus! {

/// A value that is bound to a parameter of a query.
#[derive(Debug)]
pub enum SqlArg {
    /// The key of a row.
    Id(i32),
    /// A number, or null.
    Integer(Option<i64>),
    /// A text, or null.
    Text(Option<String>),
    /// A transaction status, or null.
    Status(Option<TransactionStatus>),
}

/// A query: the file that holds its SQL, and the values of its parameters in order.
#[derive(Debug)]
pub struct ArchiveQuery {
    pub file: &'static str,
    pub args: Vec<SqlArg>,
}

impl ArchiveQuery {
    /// Whether the query runs the SQL of `file` with the parameters `args`.
    pub open spec fn is(self, file: Seq<char>, args: Seq<SqlArg>) -> bool {
        self.file@ == file && self.args@ =~= args
    }
}

/// A query has one file and one list of parameters.
pub proof fn queries_have_one_file_and_one_list(
    query: ArchiveQuery,
    file: Seq<char>,
    args: Seq<SqlArg>,
)
    ensures
        query.is(file, args) <==> query.file@ == file && query.args@ == args,
{
}

} // verus!
