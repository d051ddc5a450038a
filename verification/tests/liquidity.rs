use zerobridge::coordinator::config::LiquidityConfig;
use zerobridge::coordinator::liquidity_manager::{
    LiquidityError, LiquidityManager, LiquidityPool, PoolRow, RebalanceDecision,
};
use zerobridge::ratio::Ratio;

fn pool(available: u64, locked: u64) -> LiquidityPool {
    LiquidityPool { chain_id: 1, token: "ETH".to_string(), available, locked, target: 200, last_rebalance: 0 }
}

fn settings(cap: u64) -> LiquidityConfig {
    LiquidityConfig {
        rebalance_threshold: Ratio::new(4, 5),
        target_utilization: Ratio::new(1, 2),
        min_liquidity_usd: 10_000,
        max_rebalance_usd: cap,
    }
}

fn row(chain_id: u64, token: &str, available: u64, locked: u64) -> PoolRow {
    PoolRow { chain_id, token: token.to_string(), available, locked, target: 0 }
}

fn funds(manager: &LiquidityManager, chain_id: u64, token: &str) -> (u64, u64) {
    let pool = manager.get_pool(chain_id, token).unwrap();
    (pool.available, pool.locked)
}

#[test]
fn test_pool_utilization() {
    let pool = pool(100, 50);
    let utilization = pool.utilization();
    assert_eq!(utilization, Ratio::new(50, 150));
    assert_eq!(utilization.numerator as f64 / utilization.denominator as f64, 0.3333333333333333);
}

#[test]
fn test_needs_rebalancing() {
    let pool = pool(20, 80);
    assert!(pool.needs_rebalancing(Ratio::new(7, 10))); // 80% > 70%
    assert!(!pool.needs_rebalancing(Ratio::new(9, 10))); // 80% < 90%
}

#[test]
fn test_calculate_rebalance_amount() {
    let pool = pool(100, 0);
    // Target 50% utilization: need to lock 50
    let amount = pool.calculate_rebalance_amount(Ratio::new(1, 2));
    assert_eq!(amount, 50);
}

#[test]
fn empty_pool_has_no_utilization() {
    let pool = pool(0, 0);
    assert_eq!(pool.utilization(), Ratio::new(0, 1));
    assert!(!pool.needs_rebalancing(Ratio::new(0, 1)));
    assert_eq!(pool.calculate_rebalance_amount(Ratio::new(1, 2)), 0);
}

#[test]
fn threshold_is_strict() {
    let pool = pool(20, 80);
    assert!(!pool.needs_rebalancing(Ratio::new(8, 10)));
    assert!(!pool.needs_rebalancing(Ratio::new(80, 100)));
    assert!(pool.needs_rebalancing(Ratio::new(799, 1000)));
}

#[test]
fn rebalance_amount_rounds_towards_zero() {
    // 1/3 of 100 is 33.3..: from 0 locked that is +33, from 34 locked -0.
    assert_eq!(pool(100, 0).calculate_rebalance_amount(Ratio::new(1, 3)), 33);
    assert_eq!(pool(66, 34).calculate_rebalance_amount(Ratio::new(1, 3)), 0);
    assert_eq!(pool(20, 80).calculate_rebalance_amount(Ratio::new(1, 2)), -30);
    assert_eq!(pool(65, 35).calculate_rebalance_amount(Ratio::new(1, 3)), -1);
}

#[test]
fn rebalance_amount_is_cut_to_i64() {
    let huge = pool(0, u64::MAX);
    assert_eq!(huge.calculate_rebalance_amount(Ratio::new(0, 1)), i64::MIN);
    let wide = pool(u64::MAX, 0);
    assert_eq!(wide.calculate_rebalance_amount(Ratio::new(1, 1)), i64::MAX);
}

#[test]
fn manager_loads_rows() {
    let rows = vec![row(1, "ETH", 100, 50), row(2, "ETH", 7, 0), row(1, "ETH", 10, 5)];
    let manager = LiquidityManager::new(settings(100_000), rows).unwrap();
    // A later row replaces an earlier one for the same pool.
    assert_eq!(funds(&manager, 1, "ETH"), (10, 5));
    assert_eq!(funds(&manager, 2, "ETH"), (7, 0));
    assert!(manager.get_pool(1, "eth").is_none());
    assert_eq!(manager.get_all_pools().len(), 2);
    assert_eq!(manager.get_pool(1, "ETH").unwrap().last_rebalance, 0);
}

#[test]
fn manager_refuses_bad_input() {
    let rows = vec![row(1, "ETH", u64::MAX, 1)];
    assert_eq!(LiquidityManager::new(settings(1), rows).err(), Some(LiquidityError::Overflow));
    let mut config = settings(1);
    config.target_utilization = Ratio::new(1, 0);
    assert_eq!(LiquidityManager::new(config, vec![]).err(), Some(LiquidityError::InvalidConfig));
}

#[test]
fn ensure_lock_release() {
    let mut manager = LiquidityManager::new(settings(100_000), vec![row(1, "ETH", 100, 0)]).unwrap();
    assert_eq!(manager.ensure_liquidity(1, "ETH", 100), Ok(()));
    assert_eq!(manager.ensure_liquidity(1, "ETH", 101), Err(LiquidityError::InsufficientLiquidity));
    assert_eq!(manager.ensure_liquidity(9, "ETH", 1), Err(LiquidityError::PoolNotFound));

    let change = manager.lock_liquidity(1, "ETH", 60).unwrap();
    assert_eq!((change.after.available, change.after.locked), (40, 60));
    assert_eq!(change.before.map(|p| (p.available, p.locked)), Some((100, 0)));
    assert_eq!(funds(&manager, 1, "ETH"), (40, 60));

    assert_eq!(manager.lock_liquidity(1, "ETH", 41).err(), Some(LiquidityError::InsufficientLiquidity));
    assert_eq!(manager.lock_liquidity(2, "ETH", 1).err(), Some(LiquidityError::PoolNotFound));
    assert_eq!(funds(&manager, 1, "ETH"), (40, 60));

    manager.release_liquidity(1, "ETH", 25).unwrap();
    assert_eq!(funds(&manager, 1, "ETH"), (65, 35));
    // More than is locked: no more than is locked is released.
    manager.release_liquidity(1, "ETH", 1000).unwrap();
    assert_eq!(funds(&manager, 1, "ETH"), (100, 0));
    assert_eq!(manager.release_liquidity(3, "ETH", 1).err(), Some(LiquidityError::PoolNotFound));
}

#[test]
fn add_and_remove() {
    let mut manager = LiquidityManager::new(settings(100_000), vec![]).unwrap();
    let change = manager.add_liquidity(5, "USDC", 70).unwrap();
    assert!(change.before.is_none());
    assert_eq!(funds(&manager, 5, "USDC"), (70, 0));
    manager.add_liquidity(5, "USDC", 30).unwrap();
    assert_eq!(funds(&manager, 5, "USDC"), (100, 0));
    assert_eq!(manager.add_liquidity(5, "USDC", u64::MAX).err(), Some(LiquidityError::Overflow));
    assert_eq!(manager.remove_liquidity(5, "USDC", 101).err(), Some(LiquidityError::InsufficientLiquidity));
    assert_eq!(manager.remove_liquidity(6, "USDC", 1).err(), Some(LiquidityError::PoolNotFound));
    manager.remove_liquidity(5, "USDC", 40).unwrap();
    assert_eq!(funds(&manager, 5, "USDC"), (60, 0));
}

#[test]
fn funds_are_conserved() {
    let mut manager = LiquidityManager::new(settings(100_000), vec![row(1, "ETH", 1000, 0)]).unwrap();
    let total = |m: &LiquidityManager| {
        let (available, locked) = funds(m, 1, "ETH");
        available + locked
    };
    assert_eq!(total(&manager), 1000);
    manager.lock_liquidity(1, "ETH", 300).unwrap();
    assert_eq!(total(&manager), 1000);
    manager.release_liquidity(1, "ETH", 100).unwrap();
    assert_eq!(total(&manager), 1000);
    let _ = manager.lock_liquidity(1, "ETH", 5000);
    assert_eq!(total(&manager), 1000);
    manager.release_liquidity(1, "ETH", 5000).unwrap();
    assert_eq!(total(&manager), 1000);
    manager.add_liquidity(1, "ETH", 250).unwrap();
    assert_eq!(total(&manager), 1250);
    manager.remove_liquidity(1, "ETH", 50).unwrap();
    assert_eq!(total(&manager), 1200);
    let _ = manager.remove_liquidity(1, "ETH", 5000);
    assert_eq!(total(&manager), 1200);
}

#[test]
fn revert_undoes_a_change() {
    let mut manager = LiquidityManager::new(settings(100_000), vec![row(1, "ETH", 100, 0)]).unwrap();
    let change = manager.lock_liquidity(1, "ETH", 60).unwrap();
    manager.revert(change);
    assert_eq!(funds(&manager, 1, "ETH"), (100, 0));
    let change = manager.add_liquidity(2, "NEW", 5).unwrap();
    manager.revert(change);
    assert!(manager.get_pool(2, "NEW").is_none());
}

#[test]
fn rebalancing() {
    let rows = vec![row(1, "A", 20, 80), row(2, "B", 80, 20), row(3, "C", 1, 99), row(4, "D", 0, 0)];
    let mut manager = LiquidityManager::new(settings(40), rows).unwrap();
    assert_eq!(manager.check_rebalancing_needed(), vec![(3, "C".to_string())]);

    // Pool A is at 80%: target 50% of 100 is 50, so 30 less must be locked.
    assert_eq!(manager.trigger_rebalance(1, "A", 777), Ok(RebalanceDecision::RemoveLiquidity { amount: 30 }));
    assert_eq!(manager.get_pool(1, "A").unwrap().last_rebalance, 777);
    assert_eq!(funds(&manager, 1, "A"), (20, 80));
    assert_eq!(manager.trigger_rebalance(2, "B", 778), Ok(RebalanceDecision::AddLiquidity { amount: 30 }));
    // Pool C would have to move 49: over the cap of 40.
    assert_eq!(manager.trigger_rebalance(3, "C", 779), Ok(RebalanceDecision::Rejected));
    assert_eq!(manager.get_pool(3, "C").unwrap().last_rebalance, 0);
    assert_eq!(manager.trigger_rebalance(4, "D", 780), Ok(RebalanceDecision::Balanced));
    assert_eq!(manager.get_pool(4, "D").unwrap().last_rebalance, 780);
    assert_eq!(manager.trigger_rebalance(5, "E", 781), Err(LiquidityError::PoolNotFound));

    let reports = manager.rebalance_all(900);
    assert_eq!(reports.len(), 1);
    assert_eq!((reports[0].chain_id, reports[0].token.as_str()), (3, "C"));
    assert_eq!(reports[0].decision, RebalanceDecision::Rejected);
}

#[test]
fn rebalance_all_stamps_what_it_accepts() {
    let mut config = settings(1000);
    config.rebalance_threshold = Ratio::new(1, 2);
    let rows = vec![row(1, "A", 20, 80), row(2, "B", 80, 20), row(3, "C", 1, 99)];
    let mut manager = LiquidityManager::new(config, rows).unwrap();
    let reports = manager.rebalance_all(55);
    let keys: Vec<(u64, &str)> = reports.iter().map(|r| (r.chain_id, r.token.as_str())).collect();
    assert_eq!(keys, vec![(1, "A"), (3, "C")]);
    assert_eq!(reports[0].decision, RebalanceDecision::RemoveLiquidity { amount: 30 });
    assert_eq!(reports[1].decision, RebalanceDecision::RemoveLiquidity { amount: 49 });
    assert_eq!(manager.get_pool(1, "A").unwrap().last_rebalance, 55);
    assert_eq!(manager.get_pool(2, "B").unwrap().last_rebalance, 0);
    assert_eq!(manager.get_pool(3, "C").unwrap().last_rebalance, 55);
    assert_eq!(funds(&manager, 3, "C"), (1, 99));
}

#[test]
fn ratios() {
    assert!(Ratio::new(1, 1).in_unit_interval());
    assert!(Ratio::new(1, 2).in_unit_interval());
    assert!(!Ratio::new(0, 2).in_unit_interval());
    assert!(!Ratio::new(3, 2).in_unit_interval());
    assert!(!Ratio::new(1, 0).in_unit_interval());
    assert!(Ratio::new(1, 2).is_exceeded_by(51, 100));
    assert!(!Ratio::new(1, 2).is_exceeded_by(50, 100));
    assert!(Ratio::new(u64::MAX - 1, u64::MAX).is_exceeded_by(u64::MAX, u64::MAX));
    assert_eq!(Ratio::new(1, 2).signed_share_less(100, 0), (false, 50));
    assert_eq!(Ratio::new(1, 2).signed_share_less(100, 80), (true, 30));
    assert_eq!(Ratio::new(1, 3).signed_share_less(100, 34), (false, 0));
}

#[test]
fn a_reverted_pool_keeps_its_place() {
    let mut manager =
        LiquidityManager::new(settings(100_000), vec![row(1, "ETH", 100, 0), row(2, "SOL", 5, 5)]).unwrap();
    let change = manager.remove_liquidity(1, "ETH", 60).unwrap();
    assert!(change.is_restorable());
    manager.revert(change);
    let keys: Vec<(u64, String)> = manager.get_all_pools().iter().map(|p| (p.chain_id, p.token.clone())).collect();
    assert_eq!(keys, vec![(1, "ETH".to_string()), (2, "SOL".to_string())]);
    assert_eq!(funds(&manager, 1, "ETH"), (100, 0));
    assert_eq!(funds(&manager, 2, "SOL"), (5, 5));
}
