use zerobridge::coordinator::config::LiquidityConfig;
use zerobridge::coordinator::database::{Database, Deposit, Stats, StoreError, Withdrawal};
use zerobridge::coordinator::engine::{
    tick_plan, Coordinator, DepositOutcome, DepositStep, DiscardReason, EngineError, Phase, RetryReason,
    WithdrawalOutcome, WithdrawalStep,
};
use zerobridge::coordinator::liquidity_manager::{
    LiquidityError, LiquidityManager, LiquidityPool, PoolChange, PoolRow,
};
use zerobridge::coordinator::rpc_server::{
    authorized_withdrawals_handler, check_liquidity_handler, deposit_status_handler, health_handler,
    notify_deposit_handler, notify_withdrawal_at, notify_withdrawal_handler, stats_handler, DepositNotification,
    LiquidityCheckRequest, LiquidityCheckResponse, WithdrawalNotification,
};
use zerobridge::coordinator::token_registry::{TokenConfig, TokenDefinition, TokenRegistry, TokenRepresentation};
use zerobridge::ratio::Ratio;

const USDC_BASE: &str = "0x833589fCD6eDb6E08f4c7C32D4f71b54bdA02913";

fn registry() -> TokenRegistry {
    let config = TokenConfig {
        tokens: vec![TokenDefinition {
            symbol: "USDC".to_string(),
            name: "USD Coin".to_string(),
            decimals: 6,
            representations: vec![TokenRepresentation {
                chain_id: 8453,
                chain_name: "Base".to_string(),
                address: USDC_BASE.to_string(),
                decimals: None,
                native: false,
                wrapped_version: None,
            }],
        }],
    };
    TokenRegistry::load(&config).unwrap()
}

fn manager(available: u64, locked: u64) -> LiquidityManager {
    let config = LiquidityConfig {
        rebalance_threshold: Ratio::new(4, 5),
        target_utilization: Ratio::new(1, 2),
        min_liquidity_usd: 10_000,
        max_rebalance_usd: 100_000_000,
    };
    let rows = vec![PoolRow { chain_id: 8453, token: USDC_BASE.to_string(), available, locked, target: 0 }];
    LiquidityManager::new(config, rows).unwrap()
}

fn engine(available: u64, locked: u64) -> Coordinator {
    Coordinator::new(Database::new(), registry(), manager(available, locked)).unwrap()
}

fn deposit_notification(id: &str, amount: u64, timestamp: u64) -> DepositNotification {
    DepositNotification {
        deposit_id: id.to_string(),
        source_chain_id: 1,
        target_chain_id: 8453,
        sender: "0xsender".to_string(),
        token: "0x833589fcd6edb6e08f4c7c32d4f71b54bda02913".to_string(),
        amount,
        recipient: vec![1u8; 32],
        zcash_address: vec![2u8; 32],
        timestamp,
    }
}

fn withdrawal_notification(id: &str, amount: u64, nullifier: u8) -> WithdrawalNotification {
    WithdrawalNotification {
        withdrawal_id: id.to_string(),
        target_chain_id: 8453,
        recipient: "0xabc".to_string(),
        token: USDC_BASE.to_string(),
        amount,
        nullifier: vec![nullifier; 32],
        zcash_proof: vec![3u8; 128],
        merkle_root: vec![4u8; 32],
    }
}

fn pool_funds(engine: &Coordinator) -> (u64, u64) {
    let pool = engine.liquidity_manager().get_pool(8453, USDC_BASE).unwrap();
    (pool.available, pool.locked)
}

fn authorize(engine: &mut Coordinator, id: &str, now: i64) -> WithdrawalOutcome {
    assert!(matches!(engine.begin_withdrawal(id), WithdrawalStep::VerifyProof(_)));
    assert!(matches!(engine.proof_checked(id, Some(true)), WithdrawalStep::MarkNullifierSpent(_)));
    engine.nullifier_marked(id, true, now)
}

#[test]
fn deposit_happy_path() {
    let mut engine = engine(2_000_000, 0);
    let response = notify_deposit_handler(&mut engine, deposit_notification("dep-1", 1_000_000, 50));
    assert_eq!(response.status, "queued");

    let request = match engine.begin_deposit("dep-1") {
        DepositStep::CreateNote(request) => request,
        other => panic!("unexpected step {:?}", other),
    };
    assert_eq!(request.deposit_id, "dep-1");
    assert_eq!(request.source_chain_id, 1);
    assert_eq!(request.amount, 1_000_000);
    assert_eq!(request.recipient, vec![1u8; 32]);
    assert_eq!(request.zcash_address, vec![2u8; 32]);
    assert_eq!(engine.in_flight().map(|f| (f.id.as_str(), f.phase)), Some(("dep-1", Phase::CreatingNote)));
    // Nothing has moved yet.
    assert_eq!(pool_funds(&engine), (2_000_000, 0));

    let outcome = engine.complete_deposit("dep-1", Some((vec![0xab; 32], "settlement-tx".to_string())));
    match outcome {
        DepositOutcome::Processed { note_commitment, pool } => {
            assert_eq!(note_commitment, "ab".repeat(32));
            assert_eq!((pool.after.available, pool.after.locked), (1_000_000, 1_000_000));
            assert_eq!(pool.before.map(|p| (p.available, p.locked)), Some((2_000_000, 0)));
        },
        other => panic!("unexpected outcome {:?}", other),
    }
    assert_eq!(pool_funds(&engine), (1_000_000, 1_000_000));
    let deposit = engine.db().get_deposit("dep-1").unwrap();
    assert!(deposit.processed);
    assert!(!deposit.note_commitment.as_deref().unwrap().is_empty());
    assert_eq!(deposit.zcash_txid.as_deref(), Some("settlement-tx"));
    assert!(engine.in_flight().is_none());
    assert!(engine.db().get_pending_deposits().is_empty());
}

#[test]
fn a_deposit_is_notified_once_and_processed_once() {
    let mut engine = engine(2_000_000, 0);
    notify_deposit_handler(&mut engine, deposit_notification("dep-1", 1_000_000, 50));
    let again = notify_deposit_handler(&mut engine, deposit_notification("dep-1", 999, 60));
    assert_eq!(again.status, "queued");
    assert_eq!(engine.db().deposit_count(), 1);
    assert_eq!(engine.db().get_deposit("dep-1").unwrap().amount, 1_000_000);

    assert!(matches!(engine.begin_deposit("dep-1"), DepositStep::CreateNote(_)));
    let outcome = engine.complete_deposit("dep-1", Some((vec![7; 32], "tx".to_string())));
    assert!(matches!(outcome, DepositOutcome::Processed { .. }));

    // Notified again after processing: still one record, still processed.
    notify_deposit_handler(&mut engine, deposit_notification("dep-1", 1_000_000, 50));
    assert_eq!(engine.db().deposit_count(), 1);
    assert!(engine.db().get_deposit("dep-1").unwrap().processed);
    // The pipeline does not take it up again.
    assert!(matches!(engine.begin_deposit("dep-1"), DepositStep::NotPending));
    assert!(matches!(engine.complete_deposit("dep-1", Some((vec![7; 32], "tx".to_string()))), DepositOutcome::OutOfOrder));
    assert_eq!(pool_funds(&engine), (1_000_000, 1_000_000));
}

#[test]
fn a_deposit_waits_for_what_it_needs() {
    let mut engine = engine(500, 0);
    notify_deposit_handler(&mut engine, deposit_notification("big", 501, 1));
    assert!(matches!(engine.begin_deposit("big"), DepositStep::Retry(RetryReason::InsufficientLiquidity)));

    let mut unknown_token = deposit_notification("odd", 1, 2);
    unknown_token.token = "0xdead".to_string();
    notify_deposit_handler(&mut engine, unknown_token);
    assert!(matches!(engine.begin_deposit("odd"), DepositStep::Retry(RetryReason::TokenNotFound)));

    assert!(matches!(engine.begin_deposit("missing"), DepositStep::NotPending));
    assert!(engine.in_flight().is_none());
    assert_eq!(engine.db().get_pending_deposits().len(), 2);
    assert_eq!(pool_funds(&engine), (500, 0));

    let mut without_pool =
        Coordinator::new(Database::new(), registry(), LiquidityManager::new(settings(), vec![]).unwrap()).unwrap();
    notify_deposit_handler(&mut without_pool, deposit_notification("d", 1, 1));
    assert!(matches!(without_pool.begin_deposit("d"), DepositStep::Retry(RetryReason::PoolNotFound)));
}

fn settings() -> LiquidityConfig {
    LiquidityConfig {
        rebalance_threshold: Ratio::new(4, 5),
        target_utilization: Ratio::new(1, 2),
        min_liquidity_usd: 0,
        max_rebalance_usd: 0,
    }
}

#[test]
fn a_failed_note_leaves_the_deposit_pending() {
    let mut engine = engine(100, 0);
    notify_deposit_handler(&mut engine, deposit_notification("dep", 60, 1));
    assert!(matches!(engine.begin_deposit("dep"), DepositStep::CreateNote(_)));
    assert!(matches!(engine.complete_deposit("dep", None), DepositOutcome::Retry(RetryReason::NoteFailed)));
    assert!(!engine.db().get_deposit("dep").unwrap().processed);
    assert_eq!(pool_funds(&engine), (100, 0));
    assert!(engine.in_flight().is_none());
    // The deposit can be taken up again.
    assert!(matches!(engine.begin_deposit("dep"), DepositStep::CreateNote(_)));
}

#[test]
fn one_record_is_in_flight_at_a_time() {
    let mut engine = engine(100, 100);
    notify_deposit_handler(&mut engine, deposit_notification("a", 10, 1));
    notify_deposit_handler(&mut engine, deposit_notification("b", 10, 2));
    notify_withdrawal_at(&mut engine, withdrawal_notification("w", 10, 9), 3);
    assert!(matches!(engine.begin_deposit("a"), DepositStep::CreateNote(_)));
    assert!(matches!(engine.begin_deposit("a"), DepositStep::Busy));
    assert!(matches!(engine.begin_deposit("b"), DepositStep::Busy));
    assert!(matches!(engine.begin_withdrawal("w"), WithdrawalStep::Busy));
    // Steps that do not fit the record in flight change nothing.
    assert!(matches!(engine.complete_deposit("b", None), DepositOutcome::OutOfOrder));
    assert!(matches!(engine.proof_checked("w", Some(true)), WithdrawalStep::OutOfOrder));
    assert!(matches!(engine.nullifier_marked("w", true, 5), WithdrawalOutcome::OutOfOrder));
    assert_eq!(engine.in_flight().map(|f| f.id.as_str()), Some("a"));
    // New records can still be notified.
    notify_deposit_handler(&mut engine, deposit_notification("c", 10, 0));
    assert_eq!(engine.db().deposit_count(), 3);
    assert!(matches!(
        engine.complete_deposit("a", Some((vec![1], "t".to_string()))),
        DepositOutcome::Processed { .. }
    ));
}

#[test]
fn withdrawal_happy_path() {
    let mut engine = engine(1_000_000, 1_000_000);
    notify_withdrawal_at(&mut engine, withdrawal_notification("wd-1", 500_000, 9), 100);

    let request = match engine.begin_withdrawal("wd-1") {
        WithdrawalStep::VerifyProof(request) => request,
        other => panic!("unexpected step {:?}", other),
    };
    assert_eq!(request.nullifier, vec![9u8; 32]);
    assert_eq!(request.zcash_proof, vec![3u8; 128]);
    assert_eq!(request.merkle_root, vec![4u8; 32]);
    assert_eq!(request.amount, 500_000);

    match engine.proof_checked("wd-1", Some(true)) {
        WithdrawalStep::MarkNullifierSpent(nullifier) => assert_eq!(nullifier, vec![9u8; 32]),
        other => panic!("unexpected step {:?}", other),
    }
    assert!(!engine.db().is_nullifier_spent(&"09".repeat(32)));

    match engine.nullifier_marked("wd-1", true, 200) {
        WithdrawalOutcome::Authorized { signature, token_address, release } => {
            assert_eq!(token_address, USDC_BASE);
            let expected = engine.generate_withdrawal_signature("wd-1", "0xabc", USDC_BASE, 500_000, &[9u8; 32]);
            assert_eq!(signature, expected);
            let change = release.unwrap();
            assert_eq!((change.after.available, change.after.locked), (1_500_000, 500_000));
        },
        other => panic!("unexpected outcome {:?}", other),
    }
    assert_eq!(pool_funds(&engine), (1_500_000, 500_000));
    assert!(engine.db().is_nullifier_spent(&"09".repeat(32)));
    let stored = engine.db().get_withdrawal("wd-1").unwrap();
    assert!(stored.authorized);
    assert_eq!(stored.auth_signature.as_ref().map(|s| s.len()), Some(32));
    assert!(engine.db().get_pending_withdrawals().is_empty());

    let ready = authorized_withdrawals_handler(&engine);
    assert_eq!(ready.len(), 1);
    assert_eq!(ready[0].withdrawal_id, "wd-1");
    assert_eq!(ready[0].authorization_signature, stored.auth_signature.clone().unwrap());
    assert_eq!(ready[0].nullifier, vec![9u8; 32]);
}

#[test]
fn the_signature_is_the_digest_of_the_message() {
    let engine = engine(0, 0);
    let signature = engine.generate_withdrawal_signature("w1", "0xrecipient", "0xtoken", 1_000_000, &[7u8; 32]);
    let expected: Vec<u8> = vec![
        0xe3, 0x3f, 0xcd, 0x91, 0x66, 0x33, 0xa3, 0x25, 0x3a, 0x26, 0xb6, 0x00, 0x4a, 0xb7, 0x58, 0x62, 0x77, 0x7b,
        0xa4, 0xb9, 0xf9, 0x71, 0xa7, 0x92, 0x91, 0xa7, 0x5a, 0xd7, 0x9e, 0x2c, 0x17, 0x73,
    ];
    assert_eq!(signature, expected);
    // Every part of the message counts.
    assert_ne!(engine.generate_withdrawal_signature("w1", "0xrecipient", "0xtoken", 1_000_001, &[7u8; 32]), expected);
    assert_ne!(engine.generate_withdrawal_signature("w2", "0xrecipient", "0xtoken", 1_000_000, &[7u8; 32]), expected);
    assert_ne!(engine.generate_withdrawal_signature("w1", "0xrecipient", "0xtoken", 1_000_000, &[8u8; 32]), expected);
}

#[test]
fn withdrawal_rejected_on_bad_proof() {
    let mut engine = engine(1_000_000, 1_000_000);
    notify_withdrawal_at(&mut engine, withdrawal_notification("wd-bad", 500_000, 5), 100);
    assert!(matches!(engine.begin_withdrawal("wd-bad"), WithdrawalStep::VerifyProof(_)));
    assert!(matches!(
        engine.proof_checked("wd-bad", Some(false)),
        WithdrawalStep::Discarded(DiscardReason::InvalidProof)
    ));
    // The record is gone, no liquidity moved, no signature was made.
    assert!(engine.db().get_withdrawal("wd-bad").is_none());
    assert_eq!(engine.db().withdrawal_count(), 0);
    assert_eq!(pool_funds(&engine), (1_000_000, 1_000_000));
    assert!(authorized_withdrawals_handler(&engine).is_empty());
    assert!(!engine.db().is_nullifier_spent(&"05".repeat(32)));
    assert!(engine.in_flight().is_none());
    assert!(matches!(engine.begin_withdrawal("wd-bad"), WithdrawalStep::NotPending));
}

#[test]
fn a_nullifier_authorizes_one_withdrawal() {
    let mut engine = engine(0, 1_000_000);
    notify_withdrawal_at(&mut engine, withdrawal_notification("first", 100, 9), 1);
    notify_withdrawal_at(&mut engine, withdrawal_notification("second", 200, 9), 2);
    notify_withdrawal_at(&mut engine, withdrawal_notification("third", 300, 9), 3);
    notify_withdrawal_at(&mut engine, withdrawal_notification("other", 400, 8), 4);

    assert!(matches!(authorize(&mut engine, "first", 10), WithdrawalOutcome::Authorized { .. }));
    assert!(matches!(
        engine.begin_withdrawal("second"),
        WithdrawalStep::Discarded(DiscardReason::NullifierUsed)
    ));
    assert!(matches!(engine.begin_withdrawal("third"), WithdrawalStep::Discarded(DiscardReason::NullifierUsed)));
    assert!(matches!(authorize(&mut engine, "other", 11), WithdrawalOutcome::Authorized { .. }));

    let authorized: Vec<String> =
        engine.db().get_authorized_withdrawals().iter().map(|w| w.withdrawal_id.clone()).collect();
    assert_eq!(authorized, vec!["first".to_string(), "other".to_string()]);
    assert!(engine.db().get_withdrawal("second").is_none());
    assert!(engine.db().get_withdrawal("third").is_none());
    assert_eq!(pool_funds(&engine), (500, 999_500));
}

#[test]
fn a_withdrawal_is_authorized_once() {
    let mut engine = engine(0, 1_000);
    notify_withdrawal_at(&mut engine, withdrawal_notification("wd", 100, 1), 1);
    // A second start while the first is in flight is refused.
    assert!(matches!(engine.begin_withdrawal("wd"), WithdrawalStep::VerifyProof(_)));
    assert!(matches!(engine.begin_withdrawal("wd"), WithdrawalStep::Busy));
    assert!(matches!(engine.proof_checked("wd", Some(true)), WithdrawalStep::MarkNullifierSpent(_)));
    assert!(matches!(engine.proof_checked("wd", Some(true)), WithdrawalStep::OutOfOrder));
    let signature = match engine.nullifier_marked("wd", true, 5) {
        WithdrawalOutcome::Authorized { signature, .. } => signature,
        other => panic!("unexpected outcome {:?}", other),
    };
    assert_eq!(pool_funds(&engine), (100, 900));
    // The pipeline does not take the withdrawal up again.
    assert!(matches!(engine.begin_withdrawal("wd"), WithdrawalStep::NotPending));
    assert!(matches!(engine.nullifier_marked("wd", true, 6), WithdrawalOutcome::OutOfOrder));
    assert_eq!(pool_funds(&engine), (100, 900));
    assert_eq!(engine.db().get_withdrawal("wd").unwrap().auth_signature, Some(signature));
    // Notifying it again changes nothing either.
    notify_withdrawal_at(&mut engine, withdrawal_notification("wd", 100, 1), 9);
    assert_eq!(engine.db().withdrawal_count(), 1);
    assert!(engine.db().get_withdrawal("wd").unwrap().authorized);
}

#[test]
fn a_withdrawal_waits_for_the_capability() {
    let mut engine = engine(0, 1_000);
    notify_withdrawal_at(&mut engine, withdrawal_notification("wd", 100, 1), 1);
    assert!(matches!(engine.begin_withdrawal("wd"), WithdrawalStep::VerifyProof(_)));
    assert!(matches!(engine.proof_checked("wd", None), WithdrawalStep::Retry(RetryReason::ProofUnavailable)));
    assert!(engine.in_flight().is_none());
    assert!(matches!(engine.begin_withdrawal("wd"), WithdrawalStep::VerifyProof(_)));
    assert!(matches!(engine.proof_checked("wd", Some(true)), WithdrawalStep::MarkNullifierSpent(_)));
    assert!(matches!(
        engine.nullifier_marked("wd", false, 3),
        WithdrawalOutcome::Retry(RetryReason::NullifierNotMarked)
    ));
    assert!(!engine.db().get_withdrawal("wd").unwrap().authorized);
    assert!(!engine.db().is_nullifier_spent(&"01".repeat(32)));
    assert_eq!(pool_funds(&engine), (0, 1_000));
    assert!(matches!(authorize(&mut engine, "wd", 4), WithdrawalOutcome::Authorized { .. }));
}

#[test]
fn a_withdrawal_in_an_unknown_token_is_not_authorized() {
    let mut engine = engine(0, 1_000);
    let mut notification = withdrawal_notification("wd", 100, 1);
    notification.token = "0xdead".to_string();
    notify_withdrawal_at(&mut engine, notification, 1);
    assert!(matches!(authorize(&mut engine, "wd", 4), WithdrawalOutcome::Failed));
    assert!(!engine.db().get_withdrawal("wd").unwrap().authorized);
    assert!(engine.db().get_withdrawal("wd").unwrap().auth_signature.is_none());
    // The nullifier is spent all the same.
    assert!(engine.db().is_nullifier_spent(&"01".repeat(32)));
    assert_eq!(pool_funds(&engine), (0, 1_000));
    assert!(matches!(engine.begin_withdrawal("wd"), WithdrawalStep::Discarded(DiscardReason::NullifierUsed)));
}

#[test]
fn release_without_a_pool_is_reported() {
    let mut engine =
        Coordinator::new(Database::new(), registry(), LiquidityManager::new(settings(), vec![]).unwrap()).unwrap();
    notify_withdrawal_at(&mut engine, withdrawal_notification("wd", 100, 1), 1);
    match authorize(&mut engine, "wd", 4) {
        WithdrawalOutcome::Authorized { release, .. } => {
            assert_eq!(release.err(), Some(LiquidityError::PoolNotFound))
        },
        other => panic!("unexpected outcome {:?}", other),
    }
    assert!(engine.db().get_withdrawal("wd").unwrap().authorized);
}

#[test]
fn a_release_is_no_more_than_is_locked() {
    let mut engine = engine(10, 30);
    notify_withdrawal_at(&mut engine, withdrawal_notification("wd", 100, 1), 1);
    assert!(matches!(authorize(&mut engine, "wd", 4), WithdrawalOutcome::Authorized { .. }));
    assert_eq!(pool_funds(&engine), (40, 0));
}

#[test]
fn a_notified_withdrawal_is_stored_unauthorized() {
    let mut engine = engine(0, 0);
    let response = notify_withdrawal_handler(&mut engine, withdrawal_notification("wd", 100, 1));
    assert_eq!(response.status, "queued");
    let stored = engine.db().get_withdrawal("wd").unwrap();
    assert!(!stored.authorized);
    assert!(stored.auth_signature.is_none());
    // The clock gave the creation time: some time after the year 2020.
    assert!(stored.created_at > 1_577_836_800);

    let forged = Withdrawal {
        withdrawal_id: "forged".to_string(),
        target_chain_id: 8453,
        recipient: "0xabc".to_string(),
        token: USDC_BASE.to_string(),
        amount: 1,
        nullifier: vec![2; 32],
        zcash_proof: vec![],
        merkle_root: vec![],
        authorized: true,
        auth_signature: Some(vec![1, 2, 3]),
        created_at: 0,
    };
    assert!(engine.store_withdrawal(forged));
    let stored = engine.db().get_withdrawal("forged").unwrap();
    assert!(!stored.authorized);
    assert!(stored.auth_signature.is_none());
}

#[test]
fn records_are_kept_in_creation_order() {
    let mut engine = engine(1_000, 0);
    notify_deposit_handler(&mut engine, deposit_notification("late", 1, 300));
    notify_deposit_handler(&mut engine, deposit_notification("early", 1, 100));
    notify_deposit_handler(&mut engine, deposit_notification("middle", 1, 200));
    notify_deposit_handler(&mut engine, deposit_notification("middle-too", 1, 200));
    let pending: Vec<String> = engine.db().get_pending_deposits().iter().map(|d| d.deposit_id.clone()).collect();
    assert_eq!(pending, vec!["early", "middle", "middle-too", "late"]);

    notify_withdrawal_at(&mut engine, withdrawal_notification("w2", 1, 2), 20);
    notify_withdrawal_at(&mut engine, withdrawal_notification("w1", 1, 1), 10);
    let pending: Vec<String> =
        engine.db().get_pending_withdrawals().iter().map(|w| w.withdrawal_id.clone()).collect();
    assert_eq!(pending, vec!["w1", "w2"]);
}

#[test]
fn test_health_endpoint() {
    let response = health_handler();
    assert_eq!(response.status, "ok");
}

#[test]
fn status_stats_health_and_liquidity() {
    let mut engine = engine(2_000, 0);
    assert_eq!(health_handler().status, "ok");
    assert_eq!(health_handler().version, zerobridge::VERSION);
    assert!(health_handler().zcash_synced);

    notify_deposit_handler(&mut engine, deposit_notification("a", 700, 1));
    notify_deposit_handler(&mut engine, deposit_notification("b", 300, 2));
    assert!(deposit_status_handler(&engine, "nope").is_none());
    let status = deposit_status_handler(&engine, "a").unwrap();
    assert_eq!((status.deposit_id.as_str(), status.processed), ("a", false));
    assert!(status.zcash_txid.is_none() && status.note_commitment.is_none());

    assert!(matches!(engine.begin_deposit("a"), DepositStep::CreateNote(_)));
    engine.complete_deposit("a", Some((vec![0x0f, 0xf0], "tx-a".to_string())));
    let status = deposit_status_handler(&engine, "a").unwrap();
    assert!(status.processed);
    assert_eq!(status.zcash_txid.as_deref(), Some("tx-a"));
    assert_eq!(status.note_commitment.as_deref(), Some("0ff0"));

    let stats = stats_handler(&engine);
    assert_eq!(
        (stats.total_deposits, stats.total_withdrawals, stats.total_volume, stats.active_deposits),
        (1, 0, 700, 1)
    );
    assert_eq!(
        engine.stats(),
        Stats { total_deposits: 1, total_withdrawals: 0, total_volume: 700, active_deposits: 1 }
    );

    let ask = |amount: u64, chain_id: u64| LiquidityCheckRequest { chain_id, token: USDC_BASE.to_string(), amount };
    assert_eq!(
        check_liquidity_handler(&engine, &ask(1_300, 8453)),
        LiquidityCheckResponse { available: true, current_liquidity: 1_300 }
    );
    assert_eq!(
        check_liquidity_handler(&engine, &ask(1_301, 8453)),
        LiquidityCheckResponse { available: false, current_liquidity: 1_300 }
    );
    assert_eq!(
        check_liquidity_handler(&engine, &ask(0, 1)),
        LiquidityCheckResponse { available: false, current_liquidity: 0 }
    );
}

#[test]
fn only_signed_withdrawals_are_ready_for_relay() {
    let mut db = Database::new();
    let withdrawal = |id: &str, nullifier: u8, signature: Option<Vec<u8>>| Withdrawal {
        withdrawal_id: id.to_string(),
        target_chain_id: 8453,
        recipient: "0xabc".to_string(),
        token: USDC_BASE.to_string(),
        amount: 1,
        nullifier: vec![nullifier; 32],
        zcash_proof: vec![],
        merkle_root: vec![],
        authorized: true,
        auth_signature: signature,
        created_at: 0,
    };
    db.store_withdrawal(withdrawal("signed", 1, Some(vec![5; 32]))).unwrap();
    db.store_withdrawal(withdrawal("unsigned", 2, None)).unwrap();
    db.mark_nullifier_spent(&"01".repeat(32), 1);
    db.mark_nullifier_spent(&"02".repeat(32), 1);
    let engine = Coordinator::new(db, registry(), manager(0, 0)).unwrap();
    let ready = authorized_withdrawals_handler(&engine);
    assert_eq!(ready.len(), 1);
    assert_eq!(ready[0].withdrawal_id, "signed");
}

#[test]
fn an_inconsistent_store_is_refused() {
    let withdrawal = |id: &str, nullifier: u8| Withdrawal {
        withdrawal_id: id.to_string(),
        target_chain_id: 8453,
        recipient: "0xabc".to_string(),
        token: USDC_BASE.to_string(),
        amount: 1,
        nullifier: vec![nullifier; 32],
        zcash_proof: vec![],
        merkle_root: vec![],
        authorized: true,
        auth_signature: Some(vec![1]),
        created_at: 0,
    };
    // Authorized, but the nullifier is not on record as spent.
    let mut db = Database::new();
    db.store_withdrawal(withdrawal("a", 1)).unwrap();
    assert_eq!(Coordinator::new(db, registry(), manager(0, 0)).err(), Some(EngineError::InconsistentStore));
    // Two authorized withdrawals with one nullifier.
    let mut db = Database::new();
    db.store_withdrawal(withdrawal("a", 1)).unwrap();
    db.store_withdrawal(withdrawal("b", 1)).unwrap();
    db.mark_nullifier_spent(&"01".repeat(32), 1);
    assert_eq!(Coordinator::new(db, registry(), manager(0, 0)).err(), Some(EngineError::InconsistentStore));
    // In order.
    let mut db = Database::new();
    db.store_withdrawal(withdrawal("a", 1)).unwrap();
    db.store_withdrawal(withdrawal("b", 2)).unwrap();
    db.mark_nullifier_spent(&"01".repeat(32), 1);
    db.mark_nullifier_spent(&"02".repeat(32), 1);
    assert!(Coordinator::new(db, registry(), manager(0, 0)).is_ok());
}

#[test]
fn the_store_on_its_own() {
    let mut db = Database::new();
    let deposit = |id: &str, amount: u64, at: i64| Deposit {
        deposit_id: id.to_string(),
        source_chain_id: 1,
        target_chain_id: 2,
        sender: "s".to_string(),
        recipient: vec![],
        token: "t".to_string(),
        amount,
        zcash_address: vec![],
        processed: false,
        zcash_txid: None,
        note_commitment: None,
        created_at: at,
    };
    assert_eq!(db.store_deposit(deposit("a", 5, 10)), Ok(()));
    assert_eq!(db.store_deposit(deposit("a", 6, 11)), Err(StoreError::DuplicateId));
    assert_eq!(db.store_deposit(deposit("b", u64::MAX, 5)), Ok(()));
    assert_eq!(db.store_deposit(deposit("c", 1, 7)), Ok(()));
    assert_eq!(db.deposit_at(0).deposit_id, "b");
    assert!(db.mark_deposit_processed("a", "note", "tx"));
    assert!(!db.mark_deposit_processed("zzz", "note", "tx"));
    assert!(db.mark_deposit_processed("b", "note", "tx"));
    assert!(db.mark_deposit_processed("c", "note", "tx"));
    // The volume stops at the largest 64-bit value.
    let stats = db.get_stats();
    assert_eq!(stats.total_deposits, 3);
    assert_eq!(stats.total_volume, u64::MAX);
    assert_eq!(stats.active_deposits, 3);

    assert!(!db.is_nullifier_spent("aa"));
    db.mark_nullifier_spent("aa", 3);
    assert!(db.is_nullifier_spent("aa"));
    assert!(!db.is_nullifier_spent("AA"));

    assert_eq!(db.store_shielded_note("c1", "tx", 5, 1, "t", 9), Ok(()));
    assert_eq!(db.store_shielded_note("c1", "tx2", 6, 1, "t", 10), Err(StoreError::DuplicateId));
    db.update_zcash_state(100, "hash", 999_900, 12);

    assert!(!db.authorize_withdrawal("none", "t", 1, &[1]));
    assert!(!db.mark_withdrawal_invalid("none", "why"));
}

#[test]
fn more_withdrawals_than_deposits_wrap_the_active_count() {
    let mut db = Database::new();
    db.store_withdrawal(Withdrawal {
        withdrawal_id: "w".to_string(),
        target_chain_id: 1,
        recipient: "r".to_string(),
        token: "t".to_string(),
        amount: 1,
        nullifier: vec![1],
        zcash_proof: vec![],
        merkle_root: vec![],
        authorized: false,
        auth_signature: None,
        created_at: 0,
    })
    .unwrap();
    assert!(db.authorize_withdrawal("w", "t", 1, &[9]));
    let stats = db.get_stats();
    assert_eq!((stats.total_deposits, stats.total_withdrawals), (0, 1));
    assert_eq!(stats.active_deposits, u64::MAX);
}

#[test]
fn rebalancing_moves_no_funds() {
    let mut engine = engine(10, 90);
    notify_deposit_handler(&mut engine, deposit_notification("d", 5, 1));
    assert!(matches!(engine.begin_deposit("d"), DepositStep::CreateNote(_)));
    let reports = engine.rebalance_liquidity(4242);
    assert_eq!(reports.len(), 1);
    assert_eq!(pool_funds(&engine), (10, 90));
    assert_eq!(engine.liquidity_manager().get_pool(8453, USDC_BASE).unwrap().last_rebalance, 4242);
    assert!(matches!(
        engine.complete_deposit("d", Some((vec![1], "t".to_string()))),
        DepositOutcome::Processed { .. }
    ));
    assert_eq!(pool_funds(&engine), (5, 95));
}

#[test]
fn liquidity_is_added_and_removed_between_records() {
    let mut engine = engine(100, 0);
    let change = engine.add_liquidity(8453, USDC_BASE, 50).unwrap().unwrap();
    assert_eq!((change.after.available, change.after.locked), (150, 0));
    let change = engine.add_liquidity(1, "NEW", 5).unwrap().unwrap();
    assert!(change.before.is_none());
    assert_eq!(engine.liquidity_manager().get_pool(1, "NEW").unwrap().available, 5);
    assert_eq!(engine.add_liquidity(1, "NEW", u64::MAX).unwrap().err(), Some(LiquidityError::Overflow));
    assert_eq!(engine.remove_liquidity(8453, USDC_BASE, 151).unwrap().err(), Some(LiquidityError::InsufficientLiquidity));
    assert_eq!(engine.remove_liquidity(2, "none", 1).unwrap().err(), Some(LiquidityError::PoolNotFound));
    let change = engine.remove_liquidity(8453, USDC_BASE, 30).unwrap().unwrap();
    assert_eq!((change.after.available, change.after.locked), (120, 0));

    // While a record is in flight the pools stay as they are.
    notify_deposit_handler(&mut engine, deposit_notification("d", 120, 1));
    assert!(matches!(engine.begin_deposit("d"), DepositStep::CreateNote(_)));
    assert!(engine.remove_liquidity(8453, USDC_BASE, 1).is_none());
    assert!(engine.add_liquidity(8453, USDC_BASE, 1).is_none());
    assert_eq!(pool_funds(&engine), (120, 0));
    assert!(matches!(
        engine.complete_deposit("d", Some((vec![1], "t".to_string()))),
        DepositOutcome::Processed { .. }
    ));
    assert_eq!(pool_funds(&engine), (0, 120));
}

#[test]
fn ticks() {
    let plan = tick_plan(60);
    assert!(plan.log_tick && plan.rebalance && plan.update_metrics);
    let plan = tick_plan(30);
    assert!(plan.log_tick && !plan.rebalance && plan.update_metrics);
    let plan = tick_plan(10);
    assert!(plan.log_tick && !plan.rebalance && !plan.update_metrics);
    let plan = tick_plan(7);
    assert!(!plan.log_tick && !plan.rebalance && !plan.update_metrics);
}

#[test]
fn a_pool_change_can_be_undone() {
    let mut engine = engine(100, 40);
    let change = engine.add_liquidity(8453, USDC_BASE, 50).unwrap().unwrap();
    assert_eq!(pool_funds(&engine), (150, 40));
    assert!(engine.revert_liquidity(change));
    assert_eq!(pool_funds(&engine), (100, 40));

    // A pool that the change made is taken away again.
    let change = engine.add_liquidity(1, "NEW", 5).unwrap().unwrap();
    assert!(engine.liquidity_manager().get_pool(1, "NEW").is_some());
    assert!(engine.revert_liquidity(change));
    assert!(engine.liquidity_manager().get_pool(1, "NEW").is_none());
    assert_eq!(pool_funds(&engine), (100, 40));

    // The release of an authorized withdrawal.
    notify_withdrawal_at(&mut engine, withdrawal_notification("wd", 30, 1), 1);
    let release = match authorize(&mut engine, "wd", 4) {
        WithdrawalOutcome::Authorized { release, .. } => release.unwrap(),
        other => panic!("unexpected outcome {:?}", other),
    };
    assert_eq!(pool_funds(&engine), (130, 10));
    assert!(engine.revert_liquidity(release));
    assert_eq!(pool_funds(&engine), (100, 40));
    // The withdrawal stays authorized.
    assert!(engine.db().get_withdrawal("wd").unwrap().authorized);
}

fn pool(chain_id: u64, token: &str, available: u64, locked: u64) -> LiquidityPool {
    LiquidityPool { chain_id, token: token.to_string(), available, locked, target: 0, last_rebalance: 0 }
}

#[test]
fn an_undo_is_refused_where_it_cannot_be_made() {
    let mut engine = engine(100, 0);
    // The pool to put back is another pool's.
    let elsewhere = PoolChange { before: Some(pool(1, USDC_BASE, 7, 0)), after: pool(8453, USDC_BASE, 100, 0) };
    assert!(!elsewhere.is_restorable());
    assert!(!engine.revert_liquidity(elsewhere));
    let other_token = PoolChange { before: Some(pool(8453, "0xother", 7, 0)), after: pool(8453, USDC_BASE, 100, 0) };
    assert!(!engine.revert_liquidity(other_token));
    // The pool to put back holds more than fits.
    let too_much = PoolChange { before: Some(pool(8453, USDC_BASE, u64::MAX, 1)), after: pool(8453, USDC_BASE, 100, 0) };
    assert!(!engine.revert_liquidity(too_much));
    assert_eq!(pool_funds(&engine), (100, 0));

    // While a record is in flight the pools stay as they are.
    notify_deposit_handler(&mut engine, deposit_notification("d", 60, 1));
    assert!(matches!(engine.begin_deposit("d"), DepositStep::CreateNote(_)));
    let change = PoolChange { before: Some(pool(8453, USDC_BASE, 1, 0)), after: pool(8453, USDC_BASE, 100, 0) };
    assert!(change.is_restorable());
    assert!(!engine.revert_liquidity(change));
    assert_eq!(pool_funds(&engine), (100, 0));
    let change = PoolChange { before: Some(pool(8453, USDC_BASE, 1, 0)), after: pool(8453, USDC_BASE, 100, 0) };
    assert!(!engine.undo_deposit("d", change));
    assert!(engine.in_flight().is_some());
}

#[test]
fn a_completed_deposit_can_be_undone() {
    let mut engine = engine(2_000_000, 0);
    notify_deposit_handler(&mut engine, deposit_notification("dep-1", 1_000_000, 50));
    notify_deposit_handler(&mut engine, deposit_notification("dep-2", 10, 60));

    // A deposit that is still pending is left alone, and so is an unknown one.
    let change = PoolChange { before: None, after: pool(8453, USDC_BASE, 0, 0) };
    assert!(!engine.undo_deposit("dep-1", change));
    let change = PoolChange { before: None, after: pool(8453, USDC_BASE, 0, 0) };
    assert!(!engine.undo_deposit("nobody", change));
    assert_eq!(pool_funds(&engine), (2_000_000, 0));

    assert!(matches!(engine.begin_deposit("dep-1"), DepositStep::CreateNote(_)));
    let change = match engine.complete_deposit("dep-1", Some((vec![0xab; 32], "settlement-tx".to_string()))) {
        DepositOutcome::Processed { pool, .. } => pool,
        other => panic!("unexpected outcome {:?}", other),
    };
    assert_eq!(pool_funds(&engine), (1_000_000, 1_000_000));
    assert!(engine.db().get_deposit("dep-1").unwrap().processed);

    assert!(engine.undo_deposit("dep-1", change));
    assert_eq!(pool_funds(&engine), (2_000_000, 0));
    let deposit = engine.db().get_deposit("dep-1").unwrap();
    assert!(!deposit.processed);
    assert!(deposit.note_commitment.is_none());
    assert!(deposit.zcash_txid.is_none());
    assert_eq!(deposit.amount, 1_000_000);
    let pending: Vec<String> = engine.db().get_pending_deposits().iter().map(|d| d.deposit_id.clone()).collect();
    assert_eq!(pending, vec!["dep-1".to_string(), "dep-2".to_string()]);

    // The deposit is taken up again as a whole.
    assert!(matches!(engine.begin_deposit("dep-1"), DepositStep::CreateNote(_)));
    assert!(matches!(
        engine.complete_deposit("dep-1", Some((vec![0xab; 32], "settlement-tx".to_string()))),
        DepositOutcome::Processed { .. }
    ));
    assert_eq!(pool_funds(&engine), (1_000_000, 1_000_000));
}

fn engine_with_two_addresses() -> Coordinator {
    let representation = |chain_id: u64, address: &str| TokenRepresentation {
        chain_id,
        chain_name: "chain".to_string(),
        address: address.to_string(),
        decimals: None,
        native: false,
        wrapped_version: None,
    };
    let config = TokenConfig {
        tokens: vec![TokenDefinition {
            symbol: "USDT".to_string(),
            name: "Tether".to_string(),
            decimals: 6,
            representations: vec![representation(8453, "0xAA"), representation(8453, "0xBB"), representation(1, "0xBB")],
        }],
    };
    let rows = vec![
        PoolRow { chain_id: 8453, token: "0xAA".to_string(), available: 1_000, locked: 1_000, target: 0 },
        PoolRow { chain_id: 8453, token: "0xBB".to_string(), available: 500, locked: 500, target: 0 },
    ];
    Coordinator::new(
        Database::new(),
        TokenRegistry::load(&config).unwrap(),
        LiquidityManager::new(settings(), rows).unwrap(),
    )
    .unwrap()
}

fn funds_at(engine: &Coordinator, chain_id: u64, token: &str) -> (u64, u64) {
    let pool = engine.liquidity_manager().get_pool(chain_id, token).unwrap();
    (pool.available, pool.locked)
}

#[test]
fn a_withdrawal_is_signed_for_the_address_it_names() {
    let mut engine = engine_with_two_addresses();
    let mut notification = withdrawal_notification("wd", 200, 1);
    // The second address of the token on the chain, in another case.
    notification.token = "0xbb".to_string();
    notify_withdrawal_at(&mut engine, notification, 1);
    match authorize(&mut engine, "wd", 4) {
        WithdrawalOutcome::Authorized { signature, token_address, release } => {
            assert_eq!(token_address, "0xBB");
            assert_eq!(signature, engine.generate_withdrawal_signature("wd", "0xabc", "0xBB", 200, &[1u8; 32]));
            assert_ne!(signature, engine.generate_withdrawal_signature("wd", "0xabc", "0xAA", 200, &[1u8; 32]));
            let change = release.unwrap();
            assert_eq!(change.after.token, "0xBB");
            assert_eq!((change.after.available, change.after.locked), (700, 300));
        },
        other => panic!("unexpected outcome {:?}", other),
    }
    assert_eq!(funds_at(&engine, 8453, "0xBB"), (700, 300));
    assert_eq!(funds_at(&engine, 8453, "0xAA"), (1_000, 1_000));
}

#[test]
fn a_deposit_draws_on_the_pool_at_the_address_it_names() {
    let mut engine = engine_with_two_addresses();
    let mut notification = deposit_notification("dep", 400, 1);
    notification.token = "0xBb".to_string();
    notify_deposit_handler(&mut engine, notification);
    assert!(matches!(engine.begin_deposit("dep"), DepositStep::CreateNote(_)));
    match engine.complete_deposit("dep", Some((vec![5; 32], "tx".to_string()))) {
        DepositOutcome::Processed { pool, .. } => assert_eq!(pool.after.token, "0xBB"),
        other => panic!("unexpected outcome {:?}", other),
    }
    assert_eq!(funds_at(&engine, 8453, "0xBB"), (100, 900));
    assert_eq!(funds_at(&engine, 8453, "0xAA"), (1_000, 1_000));

    // The same address on a chain where the token has no pool.
    let mut notification = deposit_notification("dep-2", 1, 2);
    notification.token = "0xbb".to_string();
    notification.target_chain_id = 1;
    notify_deposit_handler(&mut engine, notification);
    assert!(matches!(engine.begin_deposit("dep-2"), DepositStep::Retry(RetryReason::PoolNotFound)));
    // An address of the token that is not registered on the chain.
    let mut notification = deposit_notification("dep-3", 1, 3);
    notification.token = "0xaa".to_string();
    notification.target_chain_id = 1;
    notify_deposit_handler(&mut engine, notification);
    assert!(matches!(engine.begin_deposit("dep-3"), DepositStep::Retry(RetryReason::TokenNotFound)));
}

#[test]
fn notes_are_filed_with_the_engine() {
    let mut engine = engine(100, 0);
    notify_deposit_handler(&mut engine, deposit_notification("d", 60, 1));
    assert_eq!(engine.store_shielded_note("abab", "tx-1", 60, 1, USDC_BASE, 77), Ok(()));
    // A commitment is filed once; the first note stays.
    assert_eq!(engine.store_shielded_note("abab", "tx-2", 61, 2, "other", 78), Err(StoreError::DuplicateId));
    assert_eq!(engine.store_shielded_note("cdcd", "tx-3", 5, 1, USDC_BASE, 79), Ok(()));
    // Records and pools are as they were.
    assert_eq!(engine.db().deposit_count(), 1);
    assert!(!engine.db().get_deposit("d").unwrap().processed);
    assert_eq!(pool_funds(&engine), (100, 0));
}
