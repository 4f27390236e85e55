//! The decisions of a Rosetta (Mesh) server for the Mina blockchain.
//!
//! The server answers block, mempool and search requests from a Postgres archive or from a
//! trustless indexer, and live state from a daemon or from a light node. This library holds what
//! it decides and computes between two answers of such a backend: which backend and which query
//! comes next, and what the rows that came back amount to.

pub mod api;
pub mod archive;
pub mod cache;
pub mod commands;
pub mod config;
pub mod error;
pub mod json;
pub mod light_node;
pub mod mesh;
pub mod text;
pub mod types;
