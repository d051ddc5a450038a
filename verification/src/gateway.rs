//! The gateways: the programs that hold the funds on each chain.
//!
//! A gateway locks what is deposited, takes withdrawal requests, and
//! releases funds for a request once the coordinator has signed it. It
//! honours each nullifier once. What the chain tells a gateway of a call
//! (who calls, what is attached, what time it is) comes in as plain values;
//! what the gateway tells the chain to do (a transfer) goes out as one.

pub mod near;
pub mod osmosis;
pub mod solana;
