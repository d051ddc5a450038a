use zerobridge::ratio::Ratio;
use zerobridge::relayer::config::{
    ChainConfig, ChainType, GasStrategy, GasStrategyType, GossipConfig, P2PConfig, RelayerConfig, RelayerIdentity,
    RetryConfig, StakingConfig,
};
use zerobridge::relayer::coordinator_client::{AuthorizedWithdrawal, CoordinatorEndpoints};
use zerobridge::relayer::database::{RelayerDatabase, RelayerStats, StoreError};
use zerobridge::relayer::engine::{tick_plan, RelayStep, Relayer};
use zerobridge::relayer::event_listener::{
    handle_tokens_locked, EventError, EventListenerManager, GatewayLog, ListenerKind,
};
use zerobridge::relayer::p2p_network::{parse_peer_message, P2PNetwork, PeerMessage, CLAIM_TTL_SECS};
use zerobridge::relayer::stake_manager::{StakeError, StakeManager};
use zerobridge::relayer::transaction_executor::{
    parse_evm_address, ExecutionError, Submission, TransactionExecutor, EVM_GAS_LIMIT,
};

fn chain(chain_id: u64, chain_type: ChainType, ws_url: Option<&str>) -> ChainConfig {
    ChainConfig {
        chain_id,
        name: format!("chain-{}", chain_id),
        chain_type,
        rpc_url: format!("http://rpc-{}", chain_id),
        ws_url: ws_url.map(|s| s.to_string()),
        gateway_address: "0x00000000000000000000000000000000000000aa".to_string(),
        private_key: "0xabc".to_string(),
        gas_strategy: GasStrategy {
            strategy_type: GasStrategyType::Standard,
            max_gas_price: 100,
            multiplier: Ratio::new(6, 5),
        },
        retry_config: RetryConfig { max_retries: 3, initial_backoff: 5, max_backoff: 300 },
    }
}

fn config(address: &str) -> RelayerConfig {
    RelayerConfig {
        coordinator_url: "http://localhost:8080".to_string(),
        chains: vec![
            chain(1, ChainType::Ethereum, Some("ws://eth")),
            chain(2, ChainType::Solana, Some("ws://sol")),
            chain(3, ChainType::Near, None),
            chain(4, ChainType::Mina, None),
            chain(5, ChainType::Base, None),
        ],
        relayer_identity: RelayerIdentity { address: address.to_string(), name: "relayer".to_string(), reputation: 1 },
        staking: StakingConfig {
            minimum_stake: 100,
            current_stake: 150,
            hub_contract: "0x789".to_string(),
            hub_chain_id: 1,
            auto_restake: true,
        },
        p2p: P2PConfig {
            listen_addr: "0.0.0.0".to_string(),
            port: 9000,
            bootstrap_peers: vec!["peer-a".to_string(), "peer-b".to_string()],
            max_peers: 50,
            gossip: GossipConfig { heartbeat_interval: 30, message_ttl: 300 },
        },
        database_path: "relayer.db".to_string(),
        poll_interval: 5,
        max_concurrent_tasks: 10,
    }
}

fn withdrawal(id: &str, chain_id: u64, signature: Vec<u8>) -> AuthorizedWithdrawal {
    AuthorizedWithdrawal {
        withdrawal_id: id.to_string(),
        target_chain_id: chain_id,
        recipient: "0x00000000000000000000000000000000000000bb".to_string(),
        token: "00000000000000000000000000000000000000CC".to_string(),
        amount: 1_000_000,
        nullifier: vec![0x11; 32],
        authorization_signature: signature,
        timestamp: 0,
    }
}

#[test]
fn relayer_dedupe() {
    let mut first = P2PNetwork::new(&config("0xfirst"));
    let mut second = P2PNetwork::new(&config("0xsecond"));
    assert!(!first.is_task_claimed_at("wd-1", 1_000));
    assert!(!second.is_task_claimed_at("wd-1", 1_000));

    let message = first.broadcast_task_claim_at("wd-1", 1_000);
    assert_eq!(message, "CLAIM:wd-1");
    assert!(first.is_task_claimed_at("wd-1", 1_000));

    // The peer learns of the claim before it submits anything.
    let read = second.handle_incoming_message_at(&message, 1_002);
    assert!(matches!(read, PeerMessage::Claim(ref id) if id == "wd-1"));
    assert!(second.is_task_claimed_at("wd-1", 1_002));
    assert!(!second.is_task_claimed_at("wd-2", 1_002));

    // The lease runs for its length from when each side took it.
    assert!(first.is_task_claimed_at("wd-1", 1_000 + CLAIM_TTL_SECS - 1));
    assert!(!first.is_task_claimed_at("wd-1", 1_000 + CLAIM_TTL_SECS));
    assert!(second.is_task_claimed_at("wd-1", 1_002 + CLAIM_TTL_SECS - 1));
    assert!(!second.is_task_claimed_at("wd-1", 1_002 + CLAIM_TTL_SECS));

    // Once the first relayer is done, both forget the claim.
    let done = first.broadcast_withdrawal_execution("wd-1", "0xtx");
    assert_eq!(done, "EXECUTED:wd-1:0xtx");
    assert!(!first.is_task_claimed_at("wd-1", 1_003));
    second.handle_incoming_message_at(&done, 1_004);
    assert!(!second.is_task_claimed_at("wd-1", 1_004));
}

#[test]
fn relayer_dedupe_by_the_clock() {
    let mut first = Relayer::new(config("0xfirst"));
    let mut second = Relayer::new(config("0xsecond"));
    let task = withdrawal("wd-1", 3, vec![1; 32]);
    let claim_message = match first.begin_relay(&task) {
        RelayStep::Submit { claim_message, .. } => claim_message,
        other => panic!("unexpected step {:?}", other),
    };
    second.handle_peer_message_at(&claim_message, 0);
    // A claim learnt at time zero has long run out.
    assert!(!second.p2p_network().is_task_claimed("wd-1"));
    let mut network = P2PNetwork::new(&config("0xsecond"));
    network.handle_incoming_message(&claim_message);
    assert!(network.is_task_claimed("wd-1"));
    assert!(first.p2p_network().is_task_claimed("wd-1"));
    assert!(matches!(first.begin_relay(&task), RelayStep::AlreadyClaimed));
    network.cleanup_expired_claims();
    assert!(network.is_task_claimed("wd-1"));
    assert_eq!(network.network_stats().active_claims, 1);
}

#[test]
fn messages() {
    assert!(matches!(parse_peer_message("CLAIM:abc"), PeerMessage::Claim(ref id) if id == "abc"));
    assert!(matches!(parse_peer_message("CLAIM:"), PeerMessage::Claim(ref id) if id.is_empty()));
    assert!(matches!(parse_peer_message("CLAIM:a:b"), PeerMessage::Claim(ref id) if id == "a:b"));
    assert!(matches!(
        parse_peer_message("EXECUTED:wd:0xtx"),
        PeerMessage::Executed(ref id, ref tx) if id == "wd" && tx == "0xtx"
    ));
    assert!(matches!(
        parse_peer_message("EXECUTED::"),
        PeerMessage::Executed(ref id, ref tx) if id.is_empty() && tx.is_empty()
    ));
    assert!(matches!(parse_peer_message("EXECUTED:wd"), PeerMessage::Ignored));
    assert!(matches!(parse_peer_message("EXECUTED:a:b:c"), PeerMessage::Ignored));
    assert!(matches!(parse_peer_message("EXECUTED:"), PeerMessage::Ignored));
    assert!(matches!(
        parse_peer_message("DEPOSIT_NOTIFIED:dep"),
        PeerMessage::DepositNotified(ref id) if id == "dep"
    ));
    assert!(matches!(parse_peer_message("claim:abc"), PeerMessage::Ignored));
    assert!(matches!(parse_peer_message("CLAIM"), PeerMessage::Ignored));
    assert!(matches!(parse_peer_message(""), PeerMessage::Ignored));
    assert!(matches!(parse_peer_message("HEARTBEAT:1"), PeerMessage::Ignored));
    // Text beyond ASCII is counted in characters.
    assert!(matches!(parse_peer_message("CLAIM:\u{e9}t\u{e9}"), PeerMessage::Claim(ref id) if id == "\u{e9}t\u{e9}"));
    assert!(matches!(
        parse_peer_message("EXECUTED:\u{4e2d}:\u{6587}"),
        PeerMessage::Executed(ref id, ref tx) if id == "\u{4e2d}" && tx == "\u{6587}"
    ));
}

#[test]
fn claims_come_and_go() {
    let mut network = P2PNetwork::new(&config("0xme"));
    assert_eq!(network.peer_count(), 2);
    network.broadcast_task_claim_at("a", 100);
    network.broadcast_task_claim_at("b", 200);
    network.handle_incoming_message_at("CLAIM:c", 300);
    network.handle_incoming_message_at("DEPOSIT_NOTIFIED:d", 300);
    network.handle_incoming_message_at("something else", 300);
    let stats = network.network_stats();
    assert_eq!((stats.connected_peers, stats.active_claims, stats.bootstrap_peers), (2, 3, 2));
    assert_eq!(network.broadcast_deposit_notification("d"), "DEPOSIT_NOTIFIED:d");

    // At 500 the claim taken at 100 has ended at 400, the one of 200 ends this moment.
    network.cleanup_expired_claims_at(500);
    assert_eq!(network.network_stats().active_claims, 1);
    assert!(network.is_task_claimed_at("c", 500));
    assert!(!network.is_task_claimed_at("a", 0));
    // A claim is renewed by claiming again.
    network.broadcast_task_claim_at("c", 1_000);
    assert!(network.is_task_claimed_at("c", 1_299));
    // A lease cannot end after the end of time.
    network.broadcast_task_claim_at("late", i64::MAX - 10);
    assert!(network.is_task_claimed_at("late", i64::MAX - 1));
}

#[test]
fn evm_addresses() {
    let bytes = parse_evm_address("0x00000000000000000000000000000000000000aa").unwrap();
    assert_eq!(bytes.len(), 20);
    assert_eq!(bytes[19], 0xaa);
    assert_eq!(parse_evm_address("00000000000000000000000000000000000000AA"), Some(bytes));
    assert_eq!(parse_evm_address("0x00000000000000000000000000000000000000a"), None);
    assert_eq!(parse_evm_address("0x00000000000000000000000000000000000000aaa"), None);
    assert_eq!(parse_evm_address("0x00000000000000000000000000000000000000zz"), None);
    assert_eq!(parse_evm_address(""), None);
    assert_eq!(parse_evm_address("0x"), None);
}

#[test]
fn submissions() {
    let executor = TransactionExecutor::new(config("0xme"));
    let recipient = "0x00000000000000000000000000000000000000bb";
    let token = "00000000000000000000000000000000000000CC";
    let nullifier = [0x11u8; 32];
    let signature = [0x22u8; 65];

    match executor.execute_withdrawal(1, recipient, token, 1_000_000, &nullifier, &signature).unwrap() {
        Submission::Evm { rpc_url, gateway, call_data, gas_limit, gas_price_factor } => {
            assert_eq!(rpc_url, "http://rpc-1");
            assert_eq!(gateway[19], 0xaa);
            assert_eq!(gas_limit, EVM_GAS_LIMIT);
            assert_eq!(gas_limit, 300_000);
            // Six fifths, cut to a whole number.
            assert_eq!(gas_price_factor, 1);
            let mut expected = vec![0x12, 0x34, 0x56, 0x78];
            expected.extend_from_slice(&[0u8; 19]);
            expected.push(0xbb);
            expected.extend_from_slice(&[0u8; 19]);
            expected.push(0xcc);
            expected.extend_from_slice(&[0, 0, 0, 0, 0, 0x0f, 0x42, 0x40]);
            expected.extend_from_slice(&nullifier);
            expected.extend_from_slice(&signature);
            assert_eq!(call_data, expected);
        },
        other => panic!("unexpected submission {:?}", other),
    }
    assert!(matches!(
        executor.execute_withdrawal(5, recipient, token, 1, &nullifier, &signature),
        Ok(Submission::Evm { .. })
    ));
    assert_eq!(
        executor.execute_withdrawal(1, "nobody", token, 1, &nullifier, &signature).err(),
        Some(ExecutionError::InvalidRecipient)
    );
    assert_eq!(
        executor.execute_withdrawal(1, recipient, "0x12", 1, &nullifier, &signature).err(),
        Some(ExecutionError::InvalidToken)
    );

    match executor.execute_withdrawal(2, "recipient-key", "token-key", 1_000_000, &nullifier, &signature).unwrap() {
        Submission::Solana { rpc_url, program_id, recipient, token, instruction_data } => {
            assert_eq!(rpc_url, "http://rpc-2");
            assert_eq!(program_id, "0x00000000000000000000000000000000000000aa");
            assert_eq!((recipient.as_str(), token.as_str()), ("recipient-key", "token-key"));
            let mut expected = vec![2u8, 0x40, 0x42, 0x0f, 0, 0, 0, 0, 0];
            expected.extend_from_slice(&nullifier);
            expected.extend_from_slice(&signature);
            assert_eq!(instruction_data, expected);
        },
        other => panic!("unexpected submission {:?}", other),
    }

    match executor.execute_withdrawal(3, "r", "t", 1, &[0xab, 0xcd, 1, 2, 3, 4, 5, 6, 7, 8], &signature).unwrap() {
        Submission::Near { tx_hash } => assert_eq!(tx_hash, "near_tx_abcd010203040506"),
        other => panic!("unexpected submission {:?}", other),
    }
    match executor.execute_withdrawal(4, "r", "t", 1, &nullifier, &signature).unwrap() {
        Submission::Mina { tx_hash } => assert_eq!(tx_hash, "mina_tx_1111111111111111"),
        other => panic!("unexpected submission {:?}", other),
    }
    assert_eq!(
        executor.execute_withdrawal(3, "r", "t", 1, &[1, 2, 3, 4, 5, 6, 7], &signature).err(),
        Some(ExecutionError::NullifierTooShort)
    );
    assert_eq!(
        executor.execute_withdrawal(99, recipient, token, 1, &nullifier, &signature).err(),
        Some(ExecutionError::ChainNotConfigured)
    );

    let mut bad_gateway = config("0xme");
    bad_gateway.chains[0].gateway_address = "gateway".to_string();
    bad_gateway.chains[0].gas_strategy.multiplier = Ratio::new(5, 0);
    let executor = TransactionExecutor::new(bad_gateway);
    assert_eq!(
        executor.execute_withdrawal(1, "nobody", "nothing", 1, &nullifier, &signature).err(),
        Some(ExecutionError::InvalidGatewayAddress)
    );
}

#[test]
fn relaying() {
    let mut relayer = Relayer::new(config("0xme"));
    assert!(relayer.verify_coordinator_signature(&withdrawal("w", 1, vec![1])));
    assert!(!relayer.verify_coordinator_signature(&withdrawal("w", 1, vec![])));

    let task = withdrawal("wd-1", 1, vec![0x22; 65]);
    let (claim_message, submission) = match relayer.begin_relay_at(&task, 1_000) {
        RelayStep::Submit { claim_message, submission } => (claim_message, submission),
        other => panic!("unexpected step {:?}", other),
    };
    assert_eq!(claim_message, "CLAIM:wd-1");
    assert!(matches!(submission, Submission::Evm { .. }));
    // While the claim lasts, the withdrawal is not taken up again.
    assert!(matches!(relayer.begin_relay_at(&task, 1_100), RelayStep::AlreadyClaimed));

    let receipt = relayer.complete_relay_at("wd-1", "0xtx", 1_200);
    assert_eq!(receipt.execution_message, "EXECUTED:wd-1:0xtx");
    assert!(receipt.recorded);
    assert!(!relayer.p2p_network().is_task_claimed_at("wd-1", 1_200));
    let stats = relayer.db().get_stats();
    assert_eq!((stats.withdrawals_executed, stats.successful_relays, stats.failed_relays), (1, 1, 0));
    // A second confirmation of the same withdrawal is not recorded twice.
    let receipt = relayer.complete_relay_at("wd-1", "0xtx", 1_300);
    assert!(!receipt.recorded);
    assert_eq!(relayer.db().get_stats().withdrawals_executed, 1);

    // No signature: claimed, but nothing to submit.
    assert!(matches!(
        relayer.begin_relay_at(&withdrawal("wd-2", 1, vec![]), 2_000),
        RelayStep::InvalidSignature { .. }
    ));
    assert!(relayer.p2p_network().is_task_claimed_at("wd-2", 2_000));
    // An unknown chain: claimed, but nothing can be submitted.
    assert!(matches!(
        relayer.begin_relay_at(&withdrawal("wd-3", 77, vec![1]), 2_000),
        RelayStep::CannotSubmit { error: ExecutionError::ChainNotConfigured, .. }
    ));

    // A failure leaves the claim to run out; then the withdrawal is taken up again.
    let later = withdrawal("wd-4", 3, vec![1]);
    assert!(matches!(relayer.begin_relay_at(&later, 3_000), RelayStep::Submit { .. }));
    relayer.relay_failed_at("wd-4", "rpc unreachable", 3_010);
    assert!(matches!(relayer.begin_relay_at(&later, 3_100), RelayStep::AlreadyClaimed));
    assert!(matches!(relayer.begin_relay_at(&later, 3_000 + CLAIM_TTL_SECS), RelayStep::Submit { .. }));
    let stats = relayer.db().get_stats();
    assert_eq!((stats.successful_relays, stats.failed_relays), (1, 1));
    assert!(relayer.stake_manager().ensure_minimum_stake().is_ok());
}

#[test]
fn the_ledger_on_its_own() {
    let mut db = RelayerDatabase::new();
    assert_eq!(
        db.get_stats(),
        RelayerStats {
            withdrawals_executed: 0,
            total_rewards: 0,
            successful_relays: 0,
            failed_relays: 0,
            total_gas_spent: 0
        }
    );
    assert_eq!(db.record_withdrawal_execution_at("a", "tx-a", 100, 101), Ok(()));
    assert_eq!(db.record_withdrawal_execution_at("b", "tx-b", 300, 301), Ok(()));
    assert_eq!(db.record_withdrawal_execution_at("c", "tx-c", 200, 201), Ok(()));
    assert_eq!(db.record_withdrawal_execution_at("a", "tx-a2", 400, 401), Err(StoreError::DuplicateId));
    assert_eq!(db.record_withdrawal_execution("d", "tx-d", 50), Ok(()));
    db.record_relay_performance_at("e", false, Some("boom"), 500);
    db.record_relay_performance("f", false, None);
    let stats = db.get_stats();
    assert_eq!((stats.withdrawals_executed, stats.successful_relays, stats.failed_relays), (4, 4, 2));
    assert_eq!((stats.total_rewards, stats.total_gas_spent), (0, 0));

    // Executions are recorded without a chain: the latest comes first.
    let history: Vec<String> = db.get_executions_for_chain(0).iter().map(|e| e.withdrawal_id.clone()).collect();
    assert_eq!(history, vec!["b", "c", "a", "d"]);
    assert!(db.get_executions_for_chain(1).is_empty());

    db.store_task_claim_at("t", "me", 300, 1_000);
    assert!(db.is_task_claimed_at("t", 1_299));
    assert!(!db.is_task_claimed_at("t", 1_300));
    assert!(!db.is_task_claimed_at("u", 0));
    db.store_task_claim_at("past", "me", -5, 1_000);
    assert!(!db.is_task_claimed_at("past", 995));
    assert!(db.is_task_claimed_at("past", 994));
    db.store_task_claim_at("forever", "me", i64::MAX, 1_000);
    assert!(db.is_task_claimed_at("forever", i64::MAX - 1));
    // A claim that ends at the time of the cleanup stays; one that ended before goes.
    db.cleanup_expired_claims_at(1_300);
    assert!(db.is_task_claimed_at("t", 0));
    db.cleanup_expired_claims_at(1_301);
    assert!(!db.is_task_claimed_at("t", 0));
    assert!(db.is_task_claimed_at("forever", 0));

    db.store_task_claim("now", "me", 300);
    assert!(db.is_task_claimed("now"));
    db.cleanup_expired_claims();
    assert!(db.is_task_claimed("now"));
    assert!(!db.is_task_claimed("past"));
}

#[test]
fn a_history_holds_a_hundred() {
    let mut db = RelayerDatabase::new();
    for i in 0..130 {
        assert_eq!(db.record_withdrawal_execution_at(&format!("w{}", i), "tx", i, 0), Ok(()));
    }
    let history = db.get_executions_for_chain(0);
    assert_eq!(history.len(), 100);
    assert_eq!(history[0].withdrawal_id, "w129");
    assert_eq!(history[99].withdrawal_id, "w30");
}

#[test]
fn listeners() {
    let manager = EventListenerManager::new(&config("0xme"));
    assert_eq!(manager.len(), 5);
    let plan = manager.listener(0);
    assert_eq!((plan.chain_id, plan.kind, plan.endpoint.as_str(), plan.poll_interval), (1, ListenerKind::Evm, "ws://eth", None));
    assert_eq!(plan.gateway_address, "0x00000000000000000000000000000000000000aa");
    assert_eq!(plan.name, "chain-1");
    // Only an EVM listener uses the WebSocket URL.
    let plan = manager.listener(1);
    assert_eq!((plan.kind, plan.endpoint.as_str(), plan.poll_interval), (ListenerKind::Solana, "http://rpc-2", Some(2)));
    let plan = manager.listener(2);
    assert_eq!((plan.kind, plan.endpoint.as_str(), plan.poll_interval), (ListenerKind::Near, "http://rpc-3", Some(2)));
    let plan = manager.listener(3);
    assert_eq!((plan.kind, plan.endpoint.as_str(), plan.poll_interval), (ListenerKind::Mina, "http://rpc-4", Some(5)));
    let plan = manager.listener(4);
    assert_eq!((plan.kind, plan.endpoint.as_str(), plan.poll_interval), (ListenerKind::Evm, "http://rpc-5", None));
}

#[test]
fn tokens_locked() {
    let mut sender = vec![0u8; 12];
    sender.extend_from_slice(&[0xaa; 20]);
    let mut token = vec![0xff; 12];
    token.extend_from_slice(&[0xbb; 20]);
    let mut data = Vec::new();
    data.extend_from_slice(&1_000_000u64.to_be_bytes());
    data.extend_from_slice(&8453u64.to_be_bytes());
    data.extend_from_slice(&[7u8; 32]);
    data.extend_from_slice(&[8u8; 32]);
    data.extend_from_slice(&[9u8; 5]);
    let log = GatewayLog { topics: vec![vec![0; 32], vec![0x5a; 32], sender, token], data };

    let notification = handle_tokens_locked(1, &log, 1_700_000_000).unwrap();
    assert_eq!(notification.deposit_id, "5a".repeat(32));
    assert_eq!(notification.source_chain_id, 1);
    assert_eq!(notification.target_chain_id, 8453);
    assert_eq!(notification.sender, format!("0x{}", "aa".repeat(20)));
    assert_eq!(notification.token, format!("0x{}", "bb".repeat(20)));
    assert_eq!(notification.amount, 1_000_000);
    assert_eq!(notification.recipient, vec![7u8; 32]);
    assert_eq!(notification.zcash_address, vec![8u8; 32]);
    assert_eq!(notification.timestamp, 1_700_000_000);

    let mut short = GatewayLog { topics: log.topics.clone(), data: log.data[..79].to_vec() };
    assert_eq!(handle_tokens_locked(1, &short, 0).err(), Some(EventError::MalformedEvent));
    short.data = log.data.clone();
    short.topics.pop();
    assert_eq!(handle_tokens_locked(1, &short, 0).err(), Some(EventError::MalformedEvent));
    let mut odd = GatewayLog { topics: log.topics.clone(), data: log.data.clone() };
    odd.topics[2] = vec![0; 31];
    assert_eq!(handle_tokens_locked(1, &odd, 0).err(), Some(EventError::MalformedEvent));
}

#[test]
fn stake_and_endpoints() {
    let mut settings = config("0xme");
    assert_eq!(StakeManager::new(&settings).ensure_minimum_stake(), Ok(()));
    settings.staking.current_stake = 100;
    assert_eq!(StakeManager::new(&settings).ensure_minimum_stake(), Ok(()));
    settings.staking.current_stake = 99;
    let manager = StakeManager::new(&settings);
    assert_eq!(manager.ensure_minimum_stake(), Err(StakeError::BelowMinimum));
    assert!(manager.should_claim(1));
    assert!(!manager.should_claim(0));

    let endpoints = CoordinatorEndpoints::new("http://coordinator:8080");
    assert_eq!(endpoints.notify_deposit_url(), "http://coordinator:8080/deposits/notify");
    assert_eq!(endpoints.notify_withdrawal_url(), "http://coordinator:8080/withdrawals/notify");
    assert_eq!(endpoints.authorized_withdrawals_url(), "http://coordinator:8080/withdrawals/authorized");
    assert_eq!(endpoints.deposit_status_url("abc"), "http://coordinator:8080/deposits/abc/status");
    assert_eq!(endpoints.check_liquidity_url(), "http://coordinator:8080/liquidity/check");
}

#[test]
fn relayer_ticks() {
    let plan = tick_plan(60);
    assert!(plan.log_tick && plan.claim_rewards && plan.update_metrics && plan.send_heartbeat);
    let plan = tick_plan(5);
    assert!(!plan.log_tick && !plan.claim_rewards && !plan.update_metrics && plan.send_heartbeat);
    let plan = tick_plan(30);
    assert!(plan.log_tick && !plan.claim_rewards && plan.update_metrics && plan.send_heartbeat);
    let plan = tick_plan(1);
    assert!(!plan.log_tick && !plan.claim_rewards && !plan.update_metrics && !plan.send_heartbeat);
}
