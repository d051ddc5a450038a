use zerobridge::coordinator::config as coordinator_config;
use zerobridge::coordinator::config::ChainType;
use zerobridge::ratio::Ratio;
use zerobridge::relayer::config as relayer_config;

fn coordinator_chain(name: &str) -> coordinator_config::ChainConfig {
    coordinator_config::ChainConfig {
        chain_id: 1,
        name: name.to_string(),
        chain_type: coordinator_config::ChainType::Ethereum,
        rpc_url: "http://localhost:8545".to_string(),
        ws_url: None,
        gateway_address: "0x1234".to_string(),
        start_block: 0,
        enabled: true,
        confirmations: 12,
    }
}

fn coordinator_base(chains: Vec<coordinator_config::ChainConfig>, threshold: Ratio) -> coordinator_config::Config {
    coordinator_config::Config {
        zcash: coordinator_config::ZcashConfig {
            network: coordinator_config::ZcashNetwork::Testnet,
            rpc_url: "http://localhost:18232".to_string(),
            rpc_user: "user".to_string(),
            rpc_password: "pass".to_string(),
            spending_key: "test_key".to_string(),
            confirmations: 6,
            enable_orchard: true,
            enable_sapling: true,
        },
        chains,
        tokens_config: "tokens.toml".to_string(),
        liquidity: coordinator_config::LiquidityConfig {
            rebalance_threshold: threshold,
            target_utilization: Ratio::new(1, 2),
            min_liquidity_usd: 10_000,
            max_rebalance_usd: 100_000,
        },
        poll_interval: 10,
    }
}

fn relayer_base() -> relayer_config::RelayerConfig {
    relayer_config::RelayerConfig {
        coordinator_url: "http://localhost:8080".to_string(),
        chains: vec![relayer_config::ChainConfig {
            chain_id: 1,
            name: "Ethereum".to_string(),
            chain_type: relayer_config::ChainType::Ethereum,
            rpc_url: "http://localhost:8545".to_string(),
            ws_url: None,
            gateway_address: "0x123".to_string(),
            private_key: "0xabc".to_string(),
            gas_strategy: relayer_config::GasStrategy {
                strategy_type: relayer_config::GasStrategyType::Standard,
                max_gas_price: 100,
                multiplier: Ratio::new(6, 5),
            },
            retry_config: relayer_config::RetryConfig { max_retries: 3, initial_backoff: 5, max_backoff: 300 },
        }],
        relayer_identity: relayer_config::RelayerIdentity {
            address: "0x456".to_string(),
            name: "test-relayer".to_string(),
            reputation: 100,
        },
        staking: relayer_config::StakingConfig {
            minimum_stake: 100,
            current_stake: 150,
            hub_contract: "0x789".to_string(),
            hub_chain_id: 1,
            auto_restake: true,
        },
        p2p: relayer_config::P2PConfig {
            listen_addr: "0.0.0.0".to_string(),
            port: 9000,
            bootstrap_peers: vec![],
            max_peers: 50,
            gossip: relayer_config::GossipConfig { heartbeat_interval: 30, message_ttl: 300 },
        },
        database_path: "relayer.db".to_string(),
        poll_interval: 5,
        max_concurrent_tasks: 10,
    }
}

#[test]
fn test_config_validation() {
    let config = relayer_base();
    assert!(config.validate().is_ok());
}

#[test]
fn config_test_config_validation() {
    let config = coordinator_base(vec![coordinator_chain("Ethereum")], Ratio::new(4, 5));
    assert!(config.validate().is_ok());
}

#[test]
fn test_invalid_threshold() {
    // A threshold of 1.5.
    let mut config = coordinator_base(vec![], Ratio::new(3, 2));
    config.chains.push(coordinator_chain("Test"));
    assert!(config.validate().is_err());
    assert_eq!(config.validate(), Err(coordinator_config::ConfigError::InvalidRebalanceThreshold));
}

#[test]
fn coordinator_config_errors_come_in_order() {
    let good = || coordinator_base(vec![coordinator_chain("Ethereum")], Ratio::new(4, 5));

    let mut config = good();
    config.zcash.rpc_url = String::new();
    config.zcash.spending_key = String::new();
    assert_eq!(config.validate(), Err(coordinator_config::ConfigError::EmptyZcashRpcUrl));

    let mut config = good();
    config.zcash.spending_key = String::new();
    config.chains.clear();
    assert_eq!(config.validate(), Err(coordinator_config::ConfigError::EmptySpendingKey));

    let mut config = good();
    config.chains.clear();
    assert_eq!(config.validate(), Err(coordinator_config::ConfigError::NoChains));

    let mut config = good();
    config.chains.push(coordinator_chain("Second"));
    config.chains[1].rpc_url = String::new();
    config.chains[1].gateway_address = String::new();
    assert_eq!(config.validate(), Err(coordinator_config::ConfigError::EmptyChainRpcUrl { chain: 1 }));

    let mut config = good();
    config.chains[0].gateway_address = String::new();
    assert_eq!(config.validate(), Err(coordinator_config::ConfigError::EmptyGatewayAddress { chain: 0 }));

    let mut config = good();
    config.liquidity.rebalance_threshold = Ratio::new(0, 5);
    assert_eq!(config.validate(), Err(coordinator_config::ConfigError::InvalidRebalanceThreshold));

    let mut config = good();
    config.liquidity.target_utilization = Ratio::new(11, 10);
    assert_eq!(config.validate(), Err(coordinator_config::ConfigError::InvalidTargetUtilization));

    // The bounds of the interval: zero is out, one is in.
    let mut config = good();
    config.liquidity.rebalance_threshold = Ratio::new(5, 5);
    config.liquidity.target_utilization = Ratio::new(1, 1);
    assert_eq!(config.validate(), Ok(()));
}

#[test]
fn coordinator_config_finds_chains() {
    let mut config = coordinator_base(vec![coordinator_chain("Ethereum")], Ratio::new(4, 5));
    let mut base = coordinator_chain("Base");
    base.chain_id = 8453;
    base.enabled = false;
    config.chains.push(base);
    let mut again = coordinator_chain("Ethereum again");
    again.chain_id = 1;
    config.chains.push(again);

    assert_eq!(config.get_chain(1).unwrap().name, "Ethereum");
    assert_eq!(config.get_chain(8453).unwrap().name, "Base");
    assert!(config.get_chain(7).is_none());
    let enabled: Vec<String> = config.enabled_chains().iter().map(|c| c.name.clone()).collect();
    assert_eq!(enabled, vec!["Ethereum".to_string(), "Ethereum again".to_string()]);
}

#[test]
fn coordinator_defaults() {
    assert_eq!(coordinator_config::default_poll_interval(), 10);
    assert_eq!(coordinator_config::default_confirmations(), 6);
    assert!(coordinator_config::default_true());
    assert_eq!(coordinator_config::default_rebalance_threshold(), Ratio::new(4, 5));
    assert_eq!(coordinator_config::default_target_utilization(), Ratio::new(1, 2));
    assert_eq!(coordinator_config::default_min_liquidity(), 10_000);
    assert_eq!(coordinator_config::default_max_rebalance(), 100_000);
}

#[test]
fn chain_kinds() {
    assert!(ChainType::Ethereum.is_evm());
    assert!(ChainType::Base.is_evm());
    assert!(ChainType::Polygon.is_evm());
    for other in [ChainType::Solana, ChainType::Near, ChainType::Mina, ChainType::Starknet, ChainType::Osmosis] {
        assert!(!other.is_evm());
        assert!(other.is_non_evm());
    }
    assert!(!ChainType::Ethereum.is_non_evm());
    assert!(coordinator_config::ZcashNetwork::Mainnet.is_mainnet());
    assert!(!coordinator_config::ZcashNetwork::Testnet.is_mainnet());
    assert!(!coordinator_config::ZcashNetwork::Regtest.is_mainnet());
    assert!(relayer_config::ChainType::Polygon.is_evm());
    assert!(!relayer_config::ChainType::Solana.is_evm());
    assert!(!relayer_config::ChainType::Near.is_evm());
    assert!(!relayer_config::ChainType::Mina.is_evm());
}

#[test]
fn relayer_config_errors_come_in_order() {
    let mut config = relayer_base();
    config.coordinator_url = String::new();
    config.chains.clear();
    assert_eq!(config.validate(), Err(relayer_config::ConfigError::EmptyCoordinatorUrl));

    let mut config = relayer_base();
    config.chains.clear();
    assert_eq!(config.validate(), Err(relayer_config::ConfigError::NoChains));

    let mut config = relayer_base();
    config.chains[0].rpc_url = String::new();
    config.chains[0].private_key = String::new();
    assert_eq!(config.validate(), Err(relayer_config::ConfigError::EmptyChainRpcUrl { chain: 0 }));

    let mut config = relayer_base();
    config.chains[0].private_key = String::new();
    config.staking.minimum_stake = 0;
    assert_eq!(config.validate(), Err(relayer_config::ConfigError::EmptyPrivateKey { chain: 0 }));

    let mut config = relayer_base();
    config.staking.minimum_stake = 0;
    config.p2p.port = 0;
    assert_eq!(config.validate(), Err(relayer_config::ConfigError::ZeroMinimumStake));

    let mut config = relayer_base();
    config.p2p.port = 0;
    assert_eq!(config.validate(), Err(relayer_config::ConfigError::ZeroP2PPort));

    let config = relayer_base();
    assert_eq!(config.get_chain(1).unwrap().name, "Ethereum");
    assert!(config.get_chain(2).is_none());
}

#[test]
fn relayer_defaults() {
    assert_eq!(relayer_config::default_poll_interval(), 5);
    assert_eq!(relayer_config::default_max_concurrent(), 10);
    assert!(relayer_config::default_true());
    assert_eq!(relayer_config::default_p2p_listen(), "0.0.0.0");
    assert_eq!(relayer_config::default_p2p_port(), 9000);
    assert_eq!(relayer_config::default_max_peers(), 50);
    assert_eq!(relayer_config::default_heartbeat(), 30);
    assert_eq!(relayer_config::default_message_ttl(), 300);
    assert_eq!(relayer_config::default_gas_multiplier(), Ratio::new(6, 5));
    assert_eq!(relayer_config::default_max_retries(), 3);
    assert_eq!(relayer_config::default_initial_backoff(), 5);
    assert_eq!(relayer_config::default_max_backoff(), 300);
}
