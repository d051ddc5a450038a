//! The coordinator: token registry, liquidity custody and the settlement
//! pipelines for deposits and withdrawals.

pub mod config;
pub mod database;
pub mod engine;
pub mod laws;
pub mod liquidity_manager;
pub mod rpc_server;
pub mod token_registry;
pub mod zcash_client;
