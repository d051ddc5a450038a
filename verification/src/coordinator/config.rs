//! Configuration structures for the coordinator.

use vstd::prelude::*;
use crate::ratio::Ratio;
use crate::seqs::{lemma_filter_empty, lemma_filter_step, lemma_take_all};

verus! {

#[derive(Debug)]
pub struct Config {
    /// Zcash node configuration.
    pub zcash: ZcashConfig,
    /// Gateway chains configuration.
    pub chains: Vec<ChainConfig>,
    /// Token registry file path.
    pub tokens_config: String,
    /// Liquidity management configuration.
    pub liquidity: LiquidityConfig,
    /// Polling interval in seconds.
    pub poll_interval: u64,
}

#[derive(Debug)]
pub struct ZcashConfig {
    /// Network type (mainnet, testnet, regtest).
    pub network: ZcashNetwork,
    /// RPC URL.
    pub rpc_url: String,
    /// RPC username.
    pub rpc_user: String,
    /// RPC password.
    pub rpc_password: String,
    /// Spending key (base58-encoded).
    pub spending_key: String,
    /// Number of confirmations required.
    pub confirmations: u32,
    /// Enable Orchard.
    pub enable_orchard: bool,
    /// Enable Sapling.
    pub enable_sapling: bool,
}

#[derive(Debug, Clone, Copy, PartialEq, Eq, Structural)]
pub enum ZcashNetwork {
    Mainnet,
    Testnet,
    Regtest,
}

impl ZcashNetwork {
    pub fn is_mainnet(&self) -> (b: bool)
        ensures
            b == (*self == ZcashNetwork::Mainnet),
    {
        matches!(self, ZcashNetwork::Mainnet)
    }
}

#[derive(Debug)]
pub struct ChainConfig {
    /// Chain ID.
    pub chain_id: u64,
    /// Chain name.
    pub name: String,
    /// Chain type.
    pub chain_type: ChainType,
    /// RPC URL.
    pub rpc_url: String,
    /// WebSocket URL (optional).
    pub ws_url: Option<String>,
    /// Gateway contract address.
    pub gateway_address: String,
    /// Start block for event scanning.
    pub start_block: u64,
    /// Enabled flag.
    pub enabled: bool,
    /// Required confirmations.
    pub confirmations: u32,
}

#[derive(Debug, Clone, Copy, PartialEq, Eq, Structural)]
pub enum ChainType {
    Ethereum,
    Base,
    Polygon,
    Solana,
    Near,
    Mina,
    Starknet,
    Osmosis,
}

impl ChainType {
    /// The chain is of the EVM family.
    pub open spec fn spec_is_evm(&self) -> bool {
        *self == ChainType::Ethereum || *self == ChainType::Base || *self == ChainType::Polygon
    }

    pub fn is_evm(&self) -> (b: bool)
        ensures
            b == self.spec_is_evm(),
    {
        matches!(self, ChainType::Ethereum | ChainType::Base | ChainType::Polygon)
    }

    pub fn is_non_evm(&self) -> (b: bool)
        ensures
            b == !self.spec_is_evm(),
    {
        !self.is_evm()
    }
}

#[derive(Debug, Clone, Copy)]
pub struct LiquidityConfig {
    /// Rebalance threshold, a fraction in `(0, 1]`.
    pub rebalance_threshold: Ratio,
    /// Target utilization ratio, a fraction in `(0, 1]`.
    pub target_utilization: Ratio,
    /// Minimum liquidity per chain (in USD equivalent).
    pub min_liquidity_usd: u64,
    /// Maximum single rebalance amount (in USD equivalent).
    pub max_rebalance_usd: u64,
}

/// Ten seconds.
pub fn default_poll_interval() -> (seconds: u64)
    ensures
        seconds == 10,
{
    10
}

pub fn default_confirmations() -> (confirmations: u32)
    ensures
        confirmations == 6,
{
    6
}

pub fn default_true() -> (b: bool)
    ensures
        b,
{
    true
}

/// Four fifths.
pub fn default_rebalance_threshold() -> (threshold: Ratio)
    ensures
        threshold == (Ratio { numerator: 4, denominator: 5 }),
{
    Ratio { numerator: 4, denominator: 5 }
}

/// One half.
pub fn default_target_utilization() -> (target: Ratio)
    ensures
        target == (Ratio { numerator: 1, denominator: 2 }),
{
    Ratio { numerator: 1, denominator: 2 }
}

pub fn default_min_liquidity() -> (usd: u64)
    ensures
        usd == 10_000,
{
    10_000
}

pub fn default_max_rebalance() -> (usd: u64)
    ensures
        usd == 100_000,
{
    100_000
}

/// What is wrong with a configuration: the first of these, in this order,
/// that holds of it. `chain` is the place of the first chain at fault.
#[derive(Debug, Clone, Copy, PartialEq, Eq, Structural)]
pub enum ConfigError {
    EmptyZcashRpcUrl,
    EmptySpendingKey,
    NoChains,
    EmptyChainRpcUrl { chain: usize },
    EmptyGatewayAddress { chain: usize },
    InvalidRebalanceThreshold,
    InvalidTargetUtilization,
}

/// The chain has an RPC URL and a gateway address.
pub open spec fn chain_complete(chain: ChainConfig) -> bool {
    chain.rpc_url@.len() > 0 && chain.gateway_address@.len() > 0
}

/// Place `i` holds the first chain that lacks an RPC URL or a gateway address.
pub open spec fn is_first_incomplete(chains: Seq<ChainConfig>, i: int) -> bool {
    &&& 0 <= i < chains.len()
    &&& !chain_complete(chains[i])
    &&& forall|j: int| 0 <= j < i ==> chain_complete(#[trigger] chains[j])
}

/// Place `i` holds the first chain with the id `chain_id`.
pub open spec fn is_first_with_id(chains: Seq<ChainConfig>, chain_id: u64, i: int) -> bool {
    &&& 0 <= i < chains.len()
    &&& chains[i].chain_id == chain_id
    &&& forall|j: int| 0 <= j < i ==> (#[trigger] chains[j]).chain_id != chain_id
}

impl Config {
    /// Everything before the chains is in order: the settlement node has an
    /// RPC URL and a spending key, and there is a chain.
    pub open spec fn node_configured(&self) -> bool {
        self.zcash.rpc_url@.len() > 0 && self.zcash.spending_key@.len() > 0 && self.chains@.len() > 0
    }

    /// Validate configuration.
    pub fn validate(&self) -> (r: Result<(), ConfigError>)
        ensures
            match r {
                Ok(()) => {
                    &&& self.node_configured()
                    &&& forall|i: int| 0 <= i < self.chains@.len() ==> chain_complete(#[trigger] self.chains@[i])
                    &&& self.liquidity.rebalance_threshold.is_unit_fraction()
                    &&& self.liquidity.target_utilization.is_unit_fraction()
                },
                Err(ConfigError::EmptyZcashRpcUrl) => self.zcash.rpc_url@.len() == 0,
                Err(ConfigError::EmptySpendingKey) => self.zcash.rpc_url@.len() > 0 && self.zcash.spending_key@.len()
                    == 0,
                Err(ConfigError::NoChains) => self.zcash.rpc_url@.len() > 0 && self.zcash.spending_key@.len() > 0
                    && self.chains@.len() == 0,
                Err(ConfigError::EmptyChainRpcUrl { chain }) => self.node_configured() && is_first_incomplete(
                    self.chains@,
                    chain as int,
                ) && self.chains@[chain as int].rpc_url@.len() == 0,
                Err(ConfigError::EmptyGatewayAddress { chain }) => self.node_configured() && is_first_incomplete(
                    self.chains@,
                    chain as int,
                ) && self.chains@[chain as int].rpc_url@.len() > 0,
                Err(ConfigError::InvalidRebalanceThreshold) => {
                    &&& self.node_configured()
                    &&& forall|i: int| 0 <= i < self.chains@.len() ==> chain_complete(#[trigger] self.chains@[i])
                    &&& !self.liquidity.rebalance_threshold.is_unit_fraction()
                },
                Err(ConfigError::InvalidTargetUtilization) => {
                    &&& self.node_configured()
                    &&& forall|i: int| 0 <= i < self.chains@.len() ==> chain_complete(#[trigger] self.chains@[i])
                    &&& self.liquidity.rebalance_threshold.is_unit_fraction()
                    &&& !self.liquidity.target_utilization.is_unit_fraction()
                },
            },
    {
        if self.zcash.rpc_url.as_str().is_empty() {
            return Err(ConfigError::EmptyZcashRpcUrl);
        }
        if self.zcash.spending_key.as_str().is_empty() {
            return Err(ConfigError::EmptySpendingKey);
        }
        if self.chains.len() == 0 {
            return Err(ConfigError::NoChains);
        }
        let mut i: usize = 0;
        while i < self.chains.len()
            invariant
                i <= self.chains@.len(),
                self.node_configured(),
                forall|j: int| 0 <= j < i ==> chain_complete(#[trigger] self.chains@[j]),
            decreases self.chains@.len() - i,
        {
            if self.chains[i].rpc_url.as_str().is_empty() {
                return Err(ConfigError::EmptyChainRpcUrl { chain: i });
            }
            if self.chains[i].gateway_address.as_str().is_empty() {
                return Err(ConfigError::EmptyGatewayAddress { chain: i });
            }
            i += 1;
        }
        if !self.liquidity.rebalance_threshold.in_unit_interval() {
            return Err(ConfigError::InvalidRebalanceThreshold);
        }
        if !self.liquidity.target_utilization.in_unit_interval() {
            return Err(ConfigError::InvalidTargetUtilization);
        }
        Ok(())
    }

    /// Get chain config by ID: the first chain with the id.
    pub fn get_chain(&self, chain_id: u64) -> (r: Option<&ChainConfig>)
        ensures
            match r {
                Some(chain) => exists|i: int| #[trigger]
                    is_first_with_id(self.chains@, chain_id, i) && *chain == self.chains@[i],
                None => forall|i: int| 0 <= i < self.chains@.len() ==> (#[trigger] self.chains@[i]).chain_id != chain_id,
            },
    {
        let mut i: usize = 0;
        while i < self.chains.len()
            invariant
                i <= self.chains@.len(),
                forall|j: int| 0 <= j < i ==> (#[trigger] self.chains@[j]).chain_id != chain_id,
            decreases self.chains@.len() - i,
        {
            if self.chains[i].chain_id == chain_id {
                assert(is_first_with_id(self.chains@, chain_id, i as int));
                return Some(&self.chains[i]);
            }
            i += 1;
        }
        None
    }

    /// Get enabled chains, in order.
    pub fn enabled_chains(&self) -> (enabled: Vec<&ChainConfig>)
        ensures
            enabled@.map_values(|chain: &ChainConfig| *chain) == self.chains@.filter(
                |chain: ChainConfig| chain.enabled,
            ),
    {
        let ghost pred = |chain: ChainConfig| chain.enabled;
        let mut enabled: Vec<&ChainConfig> = Vec::new();
        let mut i: usize = 0;
        proof {
            lemma_filter_empty(self.chains@, pred);
            assert(enabled@.map_values(|chain: &ChainConfig| *chain) =~= Seq::<ChainConfig>::empty());
        }
        while i < self.chains.len()
            invariant
                i <= self.chains@.len(),
                pred == (|chain: ChainConfig| chain.enabled),
                enabled@.map_values(|chain: &ChainConfig| *chain) == self.chains@.take(i as int).filter(pred),
            decreases self.chains@.len() - i,
        {
            let ghost before = enabled@;
            proof {
                lemma_filter_step(self.chains@, pred, i as int);
            }
            if self.chains[i].enabled {
                enabled.push(&self.chains[i]);
                assert(enabled@.map_values(|chain: &ChainConfig| *chain) =~= before.map_values(
                    |chain: &ChainConfig| *chain,
                ).push(self.chains@[i as int]));
            }
            i += 1;
        }
        proof {
            lemma_take_all(self.chains@);
        }
        enabled
    }
}

} // verus!
