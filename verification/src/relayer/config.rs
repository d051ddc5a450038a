//! Relayer configuration.

use vstd::prelude::*;
use crate::ratio::Ratio;

verus! {

#[derive(Debug)]
pub struct RelayerConfig {
    /// Coordinator RPC URL (read-only access).
    pub coordinator_url: String,
    /// Chains to relay for.
    pub chains: Vec<ChainConfig>,
    /// Relayer identity.
    pub relayer_identity: RelayerIdentity,
    /// Staking configuration.
    pub staking: StakingConfig,
    /// P2P network configuration.
    pub p2p: P2PConfig,
    /// Database path.
    pub database_path: String,
    /// Polling interval in seconds.
    pub poll_interval: u64,
    /// Maximum concurrent relay tasks.
    pub max_concurrent_tasks: usize,
}

#[derive(Debug)]
pub struct ChainConfig {
    pub chain_id: u64,
    pub name: String,
    pub chain_type: ChainType,
    /// RPC endpoint for transaction submission.
    pub rpc_url: String,
    /// WebSocket for event listening.
    pub ws_url: Option<String>,
    /// Gateway contract address.
    pub gateway_address: String,
    /// Private key for transaction signing.
    pub private_key: String,
    /// Gas price strategy.
    pub gas_strategy: GasStrategy,
    /// Transaction retry settings.
    pub retry_config: RetryConfig,
}

#[derive(Debug, Clone, Copy, PartialEq, Eq, Structural)]
pub enum ChainType {
    Ethereum,
    Base,
    Polygon,
    Solana,
    Near,
    Mina,
}

impl ChainType {
    /// The chain is of the EVM family.
    pub open spec fn spec_is_evm(&self) -> bool {
        *self == ChainType::Ethereum || *self == ChainType::Base || *self == ChainType::Polygon
    }

    pub fn is_evm(&self) -> (b: bool)
        ensures
            b == self.spec_is_evm(),
    {
        matches!(self, ChainType::Ethereum | ChainType::Base | ChainType::Polygon)
    }
}

#[derive(Debug)]
pub struct RelayerIdentity {
    /// Relayer public address/ID.
    pub address: String,
    /// Relayer name (for P2P identification).
    pub name: String,
    /// Reputation score (tracked by network).
    pub reputation: u32,
}

#[derive(Debug)]
pub struct StakingConfig {
    /// Minimum stake required to be active relayer.
    pub minimum_stake: u64,
    /// Current staked amount.
    pub current_stake: u64,
    /// Hub contract address for staking.
    pub hub_contract: String,
    /// Chain ID where hub is deployed.
    pub hub_chain_id: u64,
    /// Auto-restake rewards.
    pub auto_restake: bool,
}

#[derive(Debug)]
pub struct P2PConfig {
    /// Listen address for P2P.
    pub listen_addr: String,
    /// P2P port.
    pub port: u16,
    /// Bootstrap peers.
    pub bootstrap_peers: Vec<String>,
    /// Maximum peer connections.
    pub max_peers: usize,
    /// Gossip protocol settings.
    pub gossip: GossipConfig,
}

#[derive(Debug, Clone, Copy)]
pub struct GossipConfig {
    /// Heartbeat interval in seconds.
    pub heartbeat_interval: u64,
    /// Message TTL.
    pub message_ttl: u64,
}

#[derive(Debug, Clone, Copy)]
pub struct GasStrategy {
    /// Strategy type.
    pub strategy_type: GasStrategyType,
    /// Max gas price (in gwei for EVM).
    pub max_gas_price: u64,
    /// Gas price multiplier.
    pub multiplier: Ratio,
}

#[derive(Debug, Clone, Copy, PartialEq, Eq, Structural)]
pub enum GasStrategyType {
    Fast,
    Standard,
    Slow,
}

#[derive(Debug, Clone, Copy)]
pub struct RetryConfig {
    /// Maximum retry attempts.
    pub max_retries: u32,
    /// Initial backoff in seconds.
    pub initial_backoff: u64,
    /// Max backoff in seconds.
    pub max_backoff: u64,
}

pub fn default_poll_interval() -> (seconds: u64)
    ensures
        seconds == 5,
{
    5
}

pub fn default_max_concurrent() -> (tasks: usize)
    ensures
        tasks == 10,
{
    10
}

pub fn default_true() -> (b: bool)
    ensures
        b,
{
    true
}

pub fn default_p2p_listen() -> (address: String)
    ensures
        address@ == "0.0.0.0"@,
{
    "0.0.0.0".to_owned()
}

pub fn default_p2p_port() -> (port: u16)
    ensures
        port == 9000,
{
    9000
}

pub fn default_max_peers() -> (peers: usize)
    ensures
        peers == 50,
{
    50
}

pub fn default_heartbeat() -> (seconds: u64)
    ensures
        seconds == 30,
{
    30
}

pub fn default_message_ttl() -> (seconds: u64)
    ensures
        seconds == 300,
{
    300
}

/// Six fifths.
pub fn default_gas_multiplier() -> (multiplier: Ratio)
    ensures
        multiplier == (Ratio { numerator: 6, denominator: 5 }),
{
    Ratio { numerator: 6, denominator: 5 }
}

pub fn default_max_retries() -> (retries: u32)
    ensures
        retries == 3,
{
    3
}

pub fn default_initial_backoff() -> (seconds: u64)
    ensures
        seconds == 5,
{
    5
}

pub fn default_max_backoff() -> (seconds: u64)
    ensures
        seconds == 300,
{
    300
}

/// What is wrong with a configuration: the first of these, in this order,
/// that holds of it. `chain` is the place of the first chain at fault.
#[derive(Debug, Clone, Copy, PartialEq, Eq, Structural)]
pub enum ConfigError {
    EmptyCoordinatorUrl,
    NoChains,
    EmptyChainRpcUrl { chain: usize },
    EmptyPrivateKey { chain: usize },
    ZeroMinimumStake,
    ZeroP2PPort,
}

/// The chain has an RPC URL and a private key.
pub open spec fn chain_complete(chain: ChainConfig) -> bool {
    chain.rpc_url@.len() > 0 && chain.private_key@.len() > 0
}

/// Place `i` holds the first chain that lacks an RPC URL or a private key.
pub open spec fn is_first_incomplete(chains: Seq<ChainConfig>, i: int) -> bool {
    &&& 0 <= i < chains.len()
    &&& !chain_complete(chains[i])
    &&& forall|j: int| 0 <= j < i ==> chain_complete(#[trigger] chains[j])
}

/// Place `i` holds the first chain with the id `chain_id`.
pub open spec fn is_first_with_id(chains: Seq<ChainConfig>, chain_id: u64, i: int) -> bool {
    &&& 0 <= i < chains.len()
    &&& chains[i].chain_id == chain_id
    &&& forall|j: int| 0 <= j < i ==> (#[trigger] chains[j]).chain_id != chain_id
}

impl RelayerConfig {
    /// There is a coordinator URL and a chain.
    pub open spec fn coordinator_configured(&self) -> bool {
        self.coordinator_url@.len() > 0 && self.chains@.len() > 0
    }

    /// Validate configuration.
    pub fn validate(&self) -> (r: Result<(), ConfigError>)
        ensures
            match r {
                Ok(()) => {
                    &&& self.coordinator_configured()
                    &&& forall|i: int| 0 <= i < self.chains@.len() ==> chain_complete(#[trigger] self.chains@[i])
                    &&& self.staking.minimum_stake > 0
                    &&& self.p2p.port > 0
                },
                Err(ConfigError::EmptyCoordinatorUrl) => self.coordinator_url@.len() == 0,
                Err(ConfigError::NoChains) => self.coordinator_url@.len() > 0 && self.chains@.len() == 0,
                Err(ConfigError::EmptyChainRpcUrl { chain }) => self.coordinator_configured() && is_first_incomplete(
                    self.chains@,
                    chain as int,
                ) && self.chains@[chain as int].rpc_url@.len() == 0,
                Err(ConfigError::EmptyPrivateKey { chain }) => self.coordinator_configured() && is_first_incomplete(
                    self.chains@,
                    chain as int,
                ) && self.chains@[chain as int].rpc_url@.len() > 0,
                Err(ConfigError::ZeroMinimumStake) => {
                    &&& self.coordinator_configured()
                    &&& forall|i: int| 0 <= i < self.chains@.len() ==> chain_complete(#[trigger] self.chains@[i])
                    &&& self.staking.minimum_stake == 0
                },
                Err(ConfigError::ZeroP2PPort) => {
                    &&& self.coordinator_configured()
                    &&& forall|i: int| 0 <= i < self.chains@.len() ==> chain_complete(#[trigger] self.chains@[i])
                    &&& self.staking.minimum_stake > 0
                    &&& self.p2p.port == 0
                },
            },
    {
        if self.coordinator_url.as_str().is_empty() {
            return Err(ConfigError::EmptyCoordinatorUrl);
        }
        if self.chains.len() == 0 {
            return Err(ConfigError::NoChains);
        }
        let mut i: usize = 0;
        while i < self.chains.len()
            invariant
                i <= self.chains@.len(),
                self.coordinator_configured(),
                forall|j: int| 0 <= j < i ==> chain_complete(#[trigger] self.chains@[j]),
            decreases self.chains@.len() - i,
        {
            if self.chains[i].rpc_url.as_str().is_empty() {
                return Err(ConfigError::EmptyChainRpcUrl { chain: i });
            }
            if self.chains[i].private_key.as_str().is_empty() {
                return Err(ConfigError::EmptyPrivateKey { chain: i });
            }
            i += 1;
        }
        if self.staking.minimum_stake == 0 {
            return Err(ConfigError::ZeroMinimumStake);
        }
        if self.p2p.port == 0 {
            return Err(ConfigError::ZeroP2PPort);
        }
        Ok(())
    }

    /// Get chain config by ID: the first chain with the id.
    pub fn get_chain(&self, chain_id: u64) -> (r: Option<&ChainConfig>)
        ensures
            match r {
                Some(chain) => exists|i: int| #[trigger]
                    is_first_with_id(self.chains@, chain_id, i) && *chain == self.chains@[i],
                None => forall|i: int| 0 <= i < self.chains@.len() ==> (#[trigger] self.chains@[i]).chain_id != chain_id,
            },
    {
        let mut i: usize = 0;
        while i < self.chains.len()
            invariant
                i <= self.chains@.len(),
                forall|j: int| 0 <= j < i ==> (#[trigger] self.chains@[j]).chain_id != chain_id,
            decreases self.chains@.len() - i,
        {
            if self.chains[i].chain_id == chain_id {
                assert(is_first_with_id(self.chains@, chain_id, i as int));
                return Some(&self.chains[i]);
            }
            i += 1;
        }
        None
    }
}

} // verus!
