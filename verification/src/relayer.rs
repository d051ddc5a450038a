//! The relayer: event intake, task claims among peers, and the execution of
//! authorized withdrawals.

pub mod config;
pub mod coordinator_client;
pub mod database;
pub mod engine;
pub mod event_listener;
pub mod p2p_network;
pub mod stake_manager;
pub mod transaction_executor;
