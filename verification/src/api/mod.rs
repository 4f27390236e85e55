//! The endpoints.

pub mod archive_search;
pub mod best_tip;
pub mod block;
pub mod indexer_block;
pub mod indexer_search;
pub mod mempool;
pub mod search_transactions;
