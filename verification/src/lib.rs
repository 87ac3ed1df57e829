//! Verified core of an Ethereum execution provider that reads from an untrusted upstream RPC
//! endpoint, and of the middleware that forwards the caller's credentials to it.

pub mod account;
pub mod auth_forwarding;
pub mod blocks;
pub mod crypto;
pub mod headers;
pub mod hint;
pub mod log_query;
pub mod logs;
pub mod packets;
pub mod provider;
pub mod receipts;
pub mod transactions;
pub mod types;
