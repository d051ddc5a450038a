//! Manage relayer stake.

use vstd::prelude::*;
use crate::relayer::config::RelayerConfig;

verus! {

#[derive(Debug, Clone, Copy, PartialEq, Eq, Structural)]
pub enum StakeError {
    /// The current stake is below the minimum.
    BelowMinimum,
}

#[derive(Debug, Clone, Copy)]
pub struct StakeManager {
    minimum_stake: u64,
    current_stake: u64,
}

impl StakeManager {
    pub closed spec fn minimum_stake(&self) -> u64 {
        self.minimum_stake
    }

    pub closed spec fn current_stake(&self) -> u64 {
        self.current_stake
    }

    pub fn new(config: &RelayerConfig) -> (manager: StakeManager)
        ensures
            manager.minimum_stake() == config.staking.minimum_stake,
            manager.current_stake() == config.staking.current_stake,
    {
        StakeManager { minimum_stake: config.staking.minimum_stake, current_stake: config.staking.current_stake }
    }

    /// Fails exactly when the current stake is below the minimum.
    pub fn ensure_minimum_stake(&self) -> (r: Result<(), StakeError>)
        ensures
            r is Ok <==> self.current_stake() >= self.minimum_stake(),
    {
        if self.current_stake < self.minimum_stake {
            return Err(StakeError::BelowMinimum);
        }
        Ok(())
    }

    /// Whether rewards of this size are worth a claim: any rewards are.
    pub fn should_claim(&self, pending_rewards: u64) -> (b: bool)
        ensures
            b == (pending_rewards > 0),
    {
        pending_rewards > 0
    }
}

} // verus!
