//! Cross-chain bridge core: the coordinator's settlement bookkeeping and the
//! relayer's task coordination, with machine-checked contracts.

use vstd::prelude::*;

pub mod casing;
pub mod clock;
pub mod coordinator;
pub mod decimal;
pub mod endian;
pub mod gateway;
pub mod hashing;
pub mod hexcode;
pub mod ratio;
pub mod relayer;
pub mod seqs;
pub mod table;
pub mod text;

verus! {

/// Library version.
pub const VERSION: &'static str = "0.1.0";

} // verus!
