//! The errors that the server's endpoints answer with.

use vstd::prelude::*;

use crate::text::ParseIntError;

verus! {

/// Why an endpoint, or the start of the server, failed.
#[derive(Debug)]
pub enum MinaMeshError {
    /// A failure that is described by its message alone.
    Exception(String),
    /// No block has the asked index and hash.
    BlockMissing(Option<i64>, Option<String>),
    /// The daemon is needed, and its URL is empty.
    GraphqlUriNotSet,
    /// A backend gave a text where a decimal integer was due.
    ParseInt(ParseIntError),
}

impl MinaMeshError {
    /// Whether this is an `Exception` with the given message.
    pub open spec fn is_exception(self, message: Seq<char>) -> bool {
        self matches MinaMeshError::Exception(m) && m@ == message
    }
}

/// An exception has one message, and no other error has any.
pub proof fn exceptions_have_one_message(e: MinaMeshError, message: Seq<char>)
    ensures
        e.is_exception(message) <==> (e is Exception && e->Exception_0@ == message),
{
}

} // verus!
