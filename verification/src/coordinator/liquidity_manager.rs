//! Liquidity management across chains.
//!
//! Each pool is keyed by a chain id and a token address and splits its funds
//! into an available and a locked part. Locking and releasing move funds
//! between the two parts; only adding and removing liquidity change their sum.

use vstd::prelude::*;
use crate::coordinator::config::LiquidityConfig;
use crate::ratio::Ratio;
use crate::seqs::{lemma_filter_elements, lemma_filter_empty, lemma_filter_step, lemma_take_all};
use crate::table::{Table, TableKey};

verus! {

/// Liquidity pool state.
#[derive(Debug)]
pub struct LiquidityPool {
    pub chain_id: u64,
    pub token: String,
    pub available: u64,
    pub locked: u64,
    pub target: u64,
    pub last_rebalance: u64,
}

/// A pool as the durable store holds it.
#[derive(Debug)]
pub struct PoolRow {
    pub chain_id: u64,
    pub token: String,
    pub available: u64,
    pub locked: u64,
    pub target: u64,
}

/// Pool identifier (chain id, token address).
pub struct PoolKey {
    pub chain_id: u64,
    pub token: String,
}

impl TableKey for PoolKey {
    type Id = (u64, Seq<char>);

    open spec fn id(&self) -> (u64, Seq<char>) {
        (self.chain_id, self.token@)
    }

    fn same(&self, other: &Self) -> (r: bool) {
        self.chain_id == other.chain_id && self.token == other.token
    }
}

#[derive(Debug, Clone, Copy, PartialEq, Eq, Structural)]
pub enum LiquidityError {
    /// No pool is kept for the chain and token.
    PoolNotFound,
    /// The pool's available funds are less than the amount asked for.
    InsufficientLiquidity,
    /// The pool's funds would no longer fit in 64 bits.
    Overflow,
    /// A configured ratio has no denominator.
    InvalidConfig,
}

/// What a change made of one pool: the pool as it was, if it existed, and as
/// it is now. The durable store takes `after`; `before` undoes the change.
#[derive(Debug)]
pub struct PoolChange {
    pub before: Option<LiquidityPool>,
    pub after: LiquidityPool,
}

impl PoolChange {
    /// The key of the pool that was changed.
    pub open spec fn key(&self) -> (u64, Seq<char>) {
        (self.after.chain_id, self.after.token@)
    }

    /// The change can be undone: the pool as it was, if there was one, is
    /// the pool of the same chain and token, and its funds fit.
    pub open spec fn restorable(&self) -> bool {
        self.before matches Some(pool) ==> filed_under(self.key(), pool)
    }

    /// Whether the change can be undone.
    pub fn is_restorable(&self) -> (r: bool)
        ensures
            r == self.restorable(),
    {
        match &self.before {
            None => true,
            Some(pool) => pool.chain_id == self.after.chain_id && pool.token == self.after.token
                && pool.available.checked_add(pool.locked).is_some(),
        }
    }
}

/// The pools after a change was undone.
pub open spec fn pools_reverted(pools: Map<(u64, Seq<char>), LiquidityPool>, change: PoolChange) -> Map<
    (u64, Seq<char>),
    LiquidityPool,
> {
    match change.before {
        Some(pool) => pools.insert(change.key(), pool),
        None => pools.remove(change.key()),
    }
}

/// The order of the pools after a change was undone.
pub open spec fn order_reverted(order: Seq<(u64, Seq<char>)>, change: PoolChange) -> Seq<(u64, Seq<char>)> {
    if order.contains(change.key()) {
        if change.before is Some {
            order
        } else {
            order.remove(order.index_of(change.key()))
        }
    } else {
        if change.before is Some {
            order.push(change.key())
        } else {
            order
        }
    }
}

/// What a rebalance check decided for one pool.
#[derive(Debug, Clone, Copy, PartialEq, Eq, Structural)]
pub enum RebalanceDecision {
    /// The amount to move exceeds the configured cap: nothing was recorded.
    Rejected,
    /// The pool should lock this much more.
    AddLiquidity { amount: u64 },
    /// The pool should lock this much less.
    RemoveLiquidity { amount: u64 },
    /// The pool is at its target.
    Balanced,
}

/// What a rebalance check decided for one pool, with the pool's key.
#[derive(Debug)]
pub struct RebalanceReport {
    pub chain_id: u64,
    pub token: String,
    pub decision: RebalanceDecision,
}

/// A 128-bit magnitude with a sign, cut to the range of `i64`.
pub open spec fn clamp_to_i64(value: int) -> int {
    if value > i64::MAX {
        i64::MAX as int
    } else if value < i64::MIN {
        i64::MIN as int
    } else {
        value
    }
}

impl LiquidityPool {
    /// Available and locked funds together.
    pub open spec fn total(&self) -> int {
        self.available + self.locked
    }

    /// The pool's funds fit in 64 bits.
    pub open spec fn valid(&self) -> bool {
        self.total() <= u64::MAX
    }

    /// The share of the pool's funds that is locked exceeds `threshold`.
    /// An empty pool exceeds nothing.
    pub open spec fn spec_needs_rebalancing(&self, threshold: Ratio) -> bool {
        self.total() > 0 && threshold.exceeded_by(self.locked as int, self.total())
    }

    /// What must be added to the locked funds to reach the share
    /// `target_utilization` of the pool's funds, rounded towards zero.
    pub open spec fn spec_rebalance_amount(&self, target_utilization: Ratio) -> int {
        target_utilization.share_less(self.total(), self.locked as int)
    }

    /// The same pool with other funds.
    pub open spec fn with_funds(&self, available: u64, locked: u64) -> LiquidityPool {
        LiquidityPool {
            chain_id: self.chain_id,
            token: self.token,
            available,
            locked,
            target: self.target,
            last_rebalance: self.last_rebalance,
        }
    }

    pub fn duplicate(&self) -> (r: LiquidityPool)
        ensures
            r == *self,
    {
        LiquidityPool {
            chain_id: self.chain_id,
            token: self.token.clone(),
            available: self.available,
            locked: self.locked,
            target: self.target,
            last_rebalance: self.last_rebalance,
        }
    }

    /// Calculate utilization ratio: locked funds over all funds, and zero for
    /// an empty pool.
    pub fn utilization(&self) -> (r: Ratio)
        requires
            self.valid(),
        ensures
            self.total() == 0 ==> r == (Ratio { numerator: 0, denominator: 1 }),
            self.total() > 0 ==> r.numerator == self.locked && r.denominator == self.total(),
    {
        let total = self.available + self.locked;
        if total == 0 {
            return Ratio { numerator: 0, denominator: 1 };
        }
        Ratio { numerator: self.locked, denominator: total }
    }

    /// Check if rebalancing is needed.
    pub fn needs_rebalancing(&self, threshold: Ratio) -> (b: bool)
        requires
            self.valid(),
        ensures
            b == self.spec_needs_rebalancing(threshold),
    {
        let total = self.available + self.locked;
        total > 0 && threshold.is_exceeded_by(self.locked, total)
    }

    /// Calculate rebalance amount, cut to the range of `i64`.
    pub fn calculate_rebalance_amount(&self, target_utilization: Ratio) -> (amount: i64)
        requires
            self.valid(),
            target_utilization.valid(),
        ensures
            amount == clamp_to_i64(self.spec_rebalance_amount(target_utilization)),
    {
        let total = self.available + self.locked;
        let (negative, magnitude) = target_utilization.signed_share_less(total, self.locked);
        if negative {
            if magnitude > 0x8000_0000_0000_0000u128 {
                i64::MIN
            } else if magnitude == 0x8000_0000_0000_0000u128 {
                i64::MIN
            } else {
                -(magnitude as i64)
            }
        } else {
            if magnitude > 0x7fff_ffff_ffff_ffffu128 {
                i64::MAX
            } else {
                magnitude as i64
            }
        }
    }
}

/// What a rebalance check decides for a pool: the amount that must be added
/// to the locked funds to reach the target utilization is rejected where its
/// size exceeds the cap, and is otherwise an addition, a removal or nothing.
pub open spec fn rebalance_decision(pool: LiquidityPool, config: LiquidityConfig) -> RebalanceDecision {
    let delta = pool.spec_rebalance_amount(config.target_utilization);
    if delta > config.max_rebalance_usd || -delta > config.max_rebalance_usd {
        RebalanceDecision::Rejected
    } else if delta > 0 {
        RebalanceDecision::AddLiquidity { amount: delta as u64 }
    } else if delta < 0 {
        RebalanceDecision::RemoveLiquidity { amount: (-delta) as u64 }
    } else {
        RebalanceDecision::Balanced
    }
}

/// The pool, stamped with the time of a rebalance.
pub open spec fn stamped(pool: LiquidityPool, now: u64) -> LiquidityPool {
    LiquidityPool {
        chain_id: pool.chain_id,
        token: pool.token,
        available: pool.available,
        locked: pool.locked,
        target: pool.target,
        last_rebalance: now,
    }
}

/// Manages liquidity pools across all gateway chains.
pub struct LiquidityManager {
    config: LiquidityConfig,
    pools: Table<PoolKey, LiquidityPool>,
}

/// A pool is filed under its own chain id and token, and its funds fit.
pub open spec fn filed_under(key: (u64, Seq<char>), pool: LiquidityPool) -> bool {
    &&& pool.chain_id == key.0
    &&& pool.token@ == key.1
    &&& pool.valid()
}

/// The pools that a list of stored rows makes: a later row for the same
/// chain and token replaces an earlier one.
pub open spec fn pools_from(rows: Seq<PoolRow>) -> Map<(u64, Seq<char>), LiquidityPool>
    decreases rows.len(),
{
    if rows.len() == 0 {
        Map::empty()
    } else {
        let row = rows.last();
        pools_from(rows.drop_last()).insert(
            (row.chain_id, row.token@),
            LiquidityPool {
                chain_id: row.chain_id,
                token: row.token,
                available: row.available,
                locked: row.locked,
                target: row.target,
                last_rebalance: 0,
            },
        )
    }
}

/// Every row's funds fit in 64 bits.
pub open spec fn rows_fit(rows: Seq<PoolRow>) -> bool {
    forall|i: int| 0 <= i < rows.len() ==> (#[trigger] rows[i]).available + rows[i].locked <= u64::MAX
}

/// An operation on the funds of one pool.
pub enum PoolOp {
    Add(u64),
    Remove(u64),
    Lock(u64),
    Release(u64),
}

/// The pool after an operation. An operation that is refused leaves the pool
/// as it was.
pub open spec fn pool_after(pool: LiquidityPool, op: PoolOp) -> LiquidityPool {
    match op {
        PoolOp::Add(amount) => if pool.total() + amount <= u64::MAX {
            pool.with_funds((pool.available + amount) as u64, pool.locked)
        } else {
            pool
        },
        PoolOp::Remove(amount) => if amount <= pool.available {
            pool.with_funds((pool.available - amount) as u64, pool.locked)
        } else {
            pool
        },
        PoolOp::Lock(amount) => if amount <= pool.available {
            pool.with_funds((pool.available - amount) as u64, (pool.locked + amount) as u64)
        } else {
            pool
        },
        PoolOp::Release(amount) => pool.with_funds(
            (pool.available + released(pool.locked, amount)) as u64,
            (pool.locked - released(pool.locked, amount)) as u64,
        ),
    }
}

/// The pool after a sequence of operations, applied in order.
pub open spec fn pool_after_all(pool: LiquidityPool, ops: Seq<PoolOp>) -> LiquidityPool
    decreases ops.len(),
{
    if ops.len() == 0 {
        pool
    } else {
        pool_after(pool_after_all(pool, ops.drop_last()), ops.last())
    }
}

/// What a sequence of operations adds to the funds of a pool on balance:
/// the amounts added less the amounts removed, of the operations that were
/// not refused.
pub open spec fn net_added(pool: LiquidityPool, ops: Seq<PoolOp>) -> int
    decreases ops.len(),
{
    if ops.len() == 0 {
        0
    } else {
        let before = pool_after_all(pool, ops.drop_last());
        net_added(pool, ops.drop_last()) + match ops.last() {
            PoolOp::Add(amount) => if before.total() + amount <= u64::MAX {
                amount as int
            } else {
                0
            },
            PoolOp::Remove(amount) => if amount <= before.available {
                -(amount as int)
            } else {
                0
            },
            _ => 0,
        }
    }
}

/// Liquidity conservation. Whatever sequence of additions, removals, locks
/// and releases is applied to a pool whose funds fit, the funds still fit
/// (neither part wraps or goes below zero), and their sum has changed by
/// exactly what was added less what was removed: locks and releases leave
/// the sum as it was.
pub proof fn lemma_liquidity_conservation(pool: LiquidityPool, ops: Seq<PoolOp>)
    requires
        pool.valid(),
    ensures
        pool_after_all(pool, ops).valid(),
        pool_after_all(pool, ops).available >= 0,
        pool_after_all(pool, ops).locked >= 0,
        pool_after_all(pool, ops).total() == pool.total() + net_added(pool, ops),
        pool_after_all(pool, ops).chain_id == pool.chain_id,
        pool_after_all(pool, ops).token == pool.token,
    decreases ops.len(),
{
    if ops.len() > 0 {
        lemma_liquidity_conservation(pool, ops.drop_last());
    }
}

/// A lock or a release leaves the sum of a pool's funds as it was.
pub proof fn lemma_lock_release_keep_total(pool: LiquidityPool, amount: u64)
    requires
        pool.valid(),
    ensures
        pool_after(pool, PoolOp::Lock(amount)).total() == pool.total(),
        pool_after(pool, PoolOp::Release(amount)).total() == pool.total(),
{
}

/// An addition that fits raises the sum of a pool's funds by exactly its
/// amount, and a removal that the available funds cover lowers it by exactly
/// its amount; neither touches the locked funds. One that is refused leaves
/// the pool as it was.
pub proof fn lemma_add_remove_change_total(pool: LiquidityPool, amount: u64)
    requires
        pool.valid(),
    ensures
        pool.total() + amount <= u64::MAX ==> {
            &&& pool_after(pool, PoolOp::Add(amount)).total() == pool.total() + amount
            &&& pool_after(pool, PoolOp::Add(amount)).locked == pool.locked
        },
        pool.total() + amount > u64::MAX ==> pool_after(pool, PoolOp::Add(amount)) == pool,
        amount <= pool.available ==> {
            &&& pool_after(pool, PoolOp::Remove(amount)).total() == pool.total() - amount
            &&& pool_after(pool, PoolOp::Remove(amount)).locked == pool.locked
        },
        amount > pool.available ==> pool_after(pool, PoolOp::Remove(amount)) == pool,
{
}

/// Rolling back. A change that is undone right after it was made leaves the
/// pools as they were: a pool that was changed is as before, and a pool
/// that was made is gone.
pub proof fn lemma_revert_restores(pools: Map<(u64, Seq<char>), LiquidityPool>, change: PoolChange)
    requires
        match change.before {
            Some(pool) => pools.dom().contains(change.key()) && pools[change.key()] == pool,
            None => !pools.dom().contains(change.key()),
        },
    ensures
        pools_reverted(pools.insert(change.key(), change.after), change) == pools,
{
    assert(pools_reverted(pools.insert(change.key(), change.after), change) =~= pools);
}

/// What is released of `amount` from a pool with `locked` funds locked.
pub open spec fn released(locked: u64, amount: u64) -> u64 {
    if amount <= locked {
        amount
    } else {
        locked
    }
}

impl LiquidityManager {
    /// The pools by chain id and token address.
    pub closed spec fn pools(&self) -> Map<(u64, Seq<char>), LiquidityPool> {
        self.pools@
    }

    /// The pools' keys in the order in which the pools were made.
    pub closed spec fn pool_order(&self) -> Seq<(u64, Seq<char>)> {
        self.pools.ids()
    }

    pub closed spec fn settings(&self) -> LiquidityConfig {
        self.config
    }

    pub closed spec fn wf(&self) -> bool {
        &&& self.pools.wf()
        &&& self.config.rebalance_threshold.valid()
        &&& self.config.target_utilization.valid()
        &&& forall|key: (u64, Seq<char>)| #[trigger]
            self.pools@.dom().contains(key) ==> filed_under(key, self.pools@[key])
    }

    /// Every pool is filed under its own key with funds that fit, and the
    /// order lists exactly the pools' keys, each once.
    pub proof fn lemma_pools(&self)
        requires
            self.wf(),
        ensures
            forall|key: (u64, Seq<char>)| #[trigger]
                self.pools().dom().contains(key) ==> filed_under(key, self.pools()[key]),
            self.settings().rebalance_threshold.valid(),
            self.settings().target_utilization.valid(),
            self.pool_order().no_duplicates(),
            self.pools().dom() =~= self.pool_order().to_set(),
            forall|i: int|
                0 <= i < self.pool_order().len() ==> self.pools().dom().contains(#[trigger] self.pool_order()[i]),
    {
        self.pools.lemma_ids();
    }

    /// Create new liquidity manager from the stored pool rows.
    pub fn new(config: LiquidityConfig, rows: Vec<PoolRow>) -> (r: Result<LiquidityManager, LiquidityError>)
        ensures
            match r {
                Ok(manager) => {
                    &&& config.rebalance_threshold.valid()
                    &&& config.target_utilization.valid()
                    &&& rows_fit(rows@)
                    &&& manager.wf()
                    &&& manager.pools() == pools_from(rows@)
                    &&& manager.settings() == config
                },
                Err(LiquidityError::InvalidConfig) => !config.rebalance_threshold.valid()
                    || !config.target_utilization.valid(),
                Err(LiquidityError::Overflow) => {
                    &&& config.rebalance_threshold.valid()
                    &&& config.target_utilization.valid()
                    &&& !rows_fit(rows@)
                },
                Err(_) => false,
            },
    {
        if config.rebalance_threshold.denominator == 0 || config.target_utilization.denominator == 0 {
            return Err(LiquidityError::InvalidConfig);
        }
        let mut pools: Table<PoolKey, LiquidityPool> = Table::new();
        let mut i: usize = 0;
        while i < rows.len()
            invariant
                i <= rows.len(),
                config.rebalance_threshold.valid(),
                config.target_utilization.valid(),
                pools.wf(),
                pools@ == pools_from(rows@.take(i as int)),
                forall|j: int| 0 <= j < i ==> (#[trigger] rows@[j]).available + rows@[j].locked <= u64::MAX,
                forall|key: (u64, Seq<char>)| #[trigger]
                    pools@.dom().contains(key) ==> filed_under(key, pools@[key]),
            decreases rows.len() - i,
        {
            let row = &rows[i];
            if row.available > u64::MAX - row.locked {
                assert(rows@[i as int].available + rows@[i as int].locked > u64::MAX);
                return Err(LiquidityError::Overflow);
            }
            let key = PoolKey { chain_id: row.chain_id, token: row.token.clone() };
            let pool = LiquidityPool {
                chain_id: row.chain_id,
                token: row.token.clone(),
                available: row.available,
                locked: row.locked,
                target: row.target,
                last_rebalance: 0,
            };
            pools.insert(key, pool);
            proof {
                assert(rows@.take(i as int + 1).drop_last() =~= rows@.take(i as int));
                assert(rows@.take(i as int + 1).last() == rows@[i as int]);
            }
            i += 1;
        }
        assert(rows@.take(rows@.len() as int) =~= rows@);
        Ok(LiquidityManager { config, pools })
    }

    /// Get pool state.
    pub fn get_pool(&self, chain_id: u64, token: &str) -> (r: Option<&LiquidityPool>)
        requires
            self.wf(),
        ensures
            match r {
                Some(pool) => self.pools().dom().contains((chain_id, token@)) && *pool == self.pools()[(
                    chain_id,
                    token@,
                )] && filed_under((chain_id, token@), *pool),
                None => !self.pools().dom().contains((chain_id, token@)),
            },
    {
        let key = PoolKey { chain_id, token: token.to_owned() };
        self.pools.get(&key)
    }

    /// Get all pools, in the order in which they were made.
    pub fn get_all_pools(&self) -> (all: Vec<&LiquidityPool>)
        requires
            self.wf(),
        ensures
            all@.len() == self.pool_order().len(),
            forall|i: int| 0 <= i < all@.len() ==> *(#[trigger] all@[i]) == self.pools()[self.pool_order()[i]],
    {
        let mut all: Vec<&LiquidityPool> = Vec::new();
        let mut i: usize = 0;
        while i < self.pools.len()
            invariant
                self.wf(),
                i <= self.pool_order().len(),
                all@.len() == i,
                forall|j: int| 0 <= j < i ==> *(#[trigger] all@[j]) == self.pools()[self.pool_order()[j]],
            decreases self.pool_order().len() - i,
        {
            all.push(self.pools.value_at(i));
            i += 1;
        }
        all
    }

    /// Ensure sufficient liquidity for a withdrawal.
    pub fn ensure_liquidity(&self, chain_id: u64, token: &str, amount: u64) -> (r: Result<(), LiquidityError>)
        requires
            self.wf(),
        ensures
            match r {
                Ok(()) => self.pools().dom().contains((chain_id, token@)) && self.pools()[(
                    chain_id,
                    token@,
                )].available >= amount,
                Err(LiquidityError::PoolNotFound) => !self.pools().dom().contains((chain_id, token@)),
                Err(LiquidityError::InsufficientLiquidity) => self.pools().dom().contains((chain_id, token@))
                    && self.pools()[(chain_id, token@)].available < amount,
                Err(_) => false,
            },
    {
        match self.get_pool(chain_id, token) {
            None => Err(LiquidityError::PoolNotFound),
            Some(pool) => if pool.available < amount {
                Err(LiquidityError::InsufficientLiquidity)
            } else {
                Ok(())
            },
        }
    }

    /// Puts `pool` in the place of the pool with its key and reports the change.
    fn replace(&mut self, before: Option<LiquidityPool>, pool: LiquidityPool) -> (change: PoolChange)
        requires
            old(self).wf(),
            pool.valid(),
        ensures
            final(self).wf(),
            final(self).settings() == old(self).settings(),
            final(self).pools() == old(self).pools().insert((pool.chain_id, pool.token@), pool),
            final(self).pool_order() == if old(self).pools().dom().contains((pool.chain_id, pool.token@)) {
                old(self).pool_order()
            } else {
                old(self).pool_order().push((pool.chain_id, pool.token@))
            },
            change.before == before,
            change.after == pool,
    {
        let key = PoolKey { chain_id: pool.chain_id, token: pool.token.clone() };
        let after = pool.duplicate();
        self.pools.insert(key, pool);
        PoolChange { before, after }
    }

    /// Lock liquidity for a pending withdrawal: moves `amount` from the
    /// available to the locked funds of the pool.
    pub fn lock_liquidity(&mut self, chain_id: u64, token: &str, amount: u64) -> (r: Result<
        PoolChange,
        LiquidityError,
    >)
        requires
            old(self).wf(),
        ensures
            final(self).wf(),
            final(self).settings() == old(self).settings(),
            final(self).pool_order() == old(self).pool_order(),
            old(self).pools().dom().contains((chain_id, token@)) ==> final(self).pools()[(chain_id, token@)]
                == pool_after(old(self).pools()[(chain_id, token@)], PoolOp::Lock(amount)),
            match r {
                Ok(change) => {
                    let key = (chain_id, token@);
                    let pool = old(self).pools()[key];
                    &&& old(self).pools().dom().contains(key)
                    &&& pool.available >= amount
                    &&& change.before == Some(pool)
                    &&& change.after == pool.with_funds((pool.available - amount) as u64, (pool.locked + amount) as u64)
                    &&& change.key() == key
                    &&& change.restorable()
                    &&& final(self).pools() == old(self).pools().insert(key, change.after)
                },
                Err(LiquidityError::PoolNotFound) => !old(self).pools().dom().contains((chain_id, token@))
                    && final(self).pools() == old(self).pools(),
                Err(LiquidityError::InsufficientLiquidity) => old(self).pools().dom().contains((chain_id, token@))
                    && old(self).pools()[(chain_id, token@)].available < amount && final(self).pools() == old(self).pools(),
                Err(_) => false,
            },
    {
        let (before, pool) = match self.get_pool(chain_id, token) {
            None => {
                return Err(LiquidityError::PoolNotFound);
            },
            Some(pool) => {
                if pool.available < amount {
                    return Err(LiquidityError::InsufficientLiquidity);
                }
                let mut next = pool.duplicate();
                next.available = pool.available - amount;
                next.locked = pool.locked + amount;
                (pool.duplicate(), next)
            },
        };
        Ok(self.replace(Some(before), pool))
    }

    /// Release locked liquidity after withdrawal completion: moves `amount`
    /// from the locked to the available funds of the pool, and no more than
    /// is locked.
    pub fn release_liquidity(&mut self, chain_id: u64, token: &str, amount: u64) -> (r: Result<
        PoolChange,
        LiquidityError,
    >)
        requires
            old(self).wf(),
        ensures
            final(self).wf(),
            final(self).settings() == old(self).settings(),
            final(self).pool_order() == old(self).pool_order(),
            old(self).pools().dom().contains((chain_id, token@)) ==> final(self).pools()[(chain_id, token@)]
                == pool_after(old(self).pools()[(chain_id, token@)], PoolOp::Release(amount)),
            match r {
                Ok(change) => {
                    let key = (chain_id, token@);
                    let pool = old(self).pools()[key];
                    let moved = released(pool.locked, amount);
                    &&& old(self).pools().dom().contains(key)
                    &&& change.before == Some(pool)
                    &&& change.after == pool.with_funds((pool.available + moved) as u64, (pool.locked - moved) as u64)
                    &&& change.key() == key
                    &&& change.restorable()
                    &&& final(self).pools() == old(self).pools().insert(key, change.after)
                },
                Err(LiquidityError::PoolNotFound) => !old(self).pools().dom().contains((chain_id, token@))
                    && final(self).pools() == old(self).pools(),
                Err(_) => false,
            },
    {
        let (before, pool) = match self.get_pool(chain_id, token) {
            None => {
                return Err(LiquidityError::PoolNotFound);
            },
            Some(pool) => {
                let moved = if amount <= pool.locked {
                    amount
                } else {
                    pool.locked
                };
                let mut next = pool.duplicate();
                next.available = pool.available + moved;
                next.locked = pool.locked - moved;
                (pool.duplicate(), next)
            },
        };
        Ok(self.replace(Some(before), pool))
    }

    /// Add liquidity to a pool. A pool that does not exist yet is made, empty.
    pub fn add_liquidity(&mut self, chain_id: u64, token: &str, amount: u64) -> (r: Result<
        PoolChange,
        LiquidityError,
    >)
        requires
            old(self).wf(),
        ensures
            final(self).wf(),
            final(self).settings() == old(self).settings(),
            old(self).pools().dom().contains((chain_id, token@)) ==> final(self).pools()[(chain_id, token@)]
                == pool_after(old(self).pools()[(chain_id, token@)], PoolOp::Add(amount)),
            match r {
                Ok(change) => {
                    let key = (chain_id, token@);
                    &&& change.key() == key
                    &&& change.restorable()
                    &&& final(self).pools() == old(self).pools().insert(key, change.after)
                    &&& change.after.chain_id == chain_id
                    &&& change.after.token@ == token@
                    &&& if old(self).pools().dom().contains(key) {
                        let pool = old(self).pools()[key];
                        &&& change.before == Some(pool)
                        &&& pool.total() + amount <= u64::MAX
                        &&& change.after == pool.with_funds((pool.available + amount) as u64, pool.locked)
                        &&& final(self).pool_order() == old(self).pool_order()
                    } else {
                        &&& change.before is None
                        &&& change.after.available == amount
                        &&& change.after.locked == 0
                        &&& change.after.target == 0
                        &&& change.after.last_rebalance == 0
                        &&& final(self).pool_order() == old(self).pool_order().push(key)
                    }
                },
                Err(LiquidityError::Overflow) => {
                    &&& old(self).pools().dom().contains((chain_id, token@))
                    &&& old(self).pools()[(chain_id, token@)].total() + amount > u64::MAX
                    &&& final(self).pools() == old(self).pools()
                    &&& final(self).pool_order() == old(self).pool_order()
                },
                Err(_) => false,
            },
    {
        let (before, pool) = match self.get_pool(chain_id, token) {
            None => (
                None,
                LiquidityPool {
                    chain_id,
                    token: token.to_owned(),
                    available: amount,
                    locked: 0,
                    target: 0,
                    last_rebalance: 0,
                },
            ),
            Some(pool) => {
                if amount > u64::MAX - pool.locked - pool.available {
                    return Err(LiquidityError::Overflow);
                }
                let mut next = pool.duplicate();
                next.available = pool.available + amount;
                (Some(pool.duplicate()), next)
            },
        };
        Ok(self.replace(before, pool))
    }

    /// Remove liquidity from a pool.
    pub fn remove_liquidity(&mut self, chain_id: u64, token: &str, amount: u64) -> (r: Result<
        PoolChange,
        LiquidityError,
    >)
        requires
            old(self).wf(),
        ensures
            final(self).wf(),
            final(self).settings() == old(self).settings(),
            final(self).pool_order() == old(self).pool_order(),
            old(self).pools().dom().contains((chain_id, token@)) ==> final(self).pools()[(chain_id, token@)]
                == pool_after(old(self).pools()[(chain_id, token@)], PoolOp::Remove(amount)),
            match r {
                Ok(change) => {
                    let key = (chain_id, token@);
                    let pool = old(self).pools()[key];
                    &&& old(self).pools().dom().contains(key)
                    &&& pool.available >= amount
                    &&& change.before == Some(pool)
                    &&& change.after == pool.with_funds((pool.available - amount) as u64, pool.locked)
                    &&& change.key() == key
                    &&& change.restorable()
                    &&& final(self).pools() == old(self).pools().insert(key, change.after)
                },
                Err(LiquidityError::PoolNotFound) => !old(self).pools().dom().contains((chain_id, token@))
                    && final(self).pools() == old(self).pools(),
                Err(LiquidityError::InsufficientLiquidity) => old(self).pools().dom().contains((chain_id, token@))
                    && old(self).pools()[(chain_id, token@)].available < amount && final(self).pools() == old(self).pools(),
                Err(_) => false,
            },
    {
        let (before, pool) = match self.get_pool(chain_id, token) {
            None => {
                return Err(LiquidityError::PoolNotFound);
            },
            Some(pool) => {
                if pool.available < amount {
                    return Err(LiquidityError::InsufficientLiquidity);
                }
                let mut next = pool.duplicate();
                next.available = pool.available - amount;
                (pool.duplicate(), next)
            },
        };
        Ok(self.replace(Some(before), pool))
    }

    /// Undoes a change that the durable store did not take: the pool is put
    /// back as it was, or taken away if the change had made it. A pool that
    /// is put back keeps its place in the order of the pools, or goes to the
    /// end if it is no longer there.
    pub fn revert(&mut self, change: PoolChange)
        requires
            old(self).wf(),
            change.restorable(),
        ensures
            final(self).wf(),
            final(self).settings() == old(self).settings(),
            final(self).pools() == pools_reverted(old(self).pools(), change),
            final(self).pool_order() == order_reverted(old(self).pool_order(), change),
    {
        proof {
            self.lemma_pools();
        }
        match change.before {
            Some(pool) => {
                let key = PoolKey { chain_id: pool.chain_id, token: pool.token.clone() };
                self.pools.insert(key, pool);
            },
            None => {
                let key = PoolKey { chain_id: change.after.chain_id, token: change.after.token };
                let _ = self.pools.remove(&key);
            },
        }
    }

    /// Check which pools need rebalancing: the keys of the pools whose
    /// locked share exceeds the configured threshold, in pool order.
    pub fn check_rebalancing_needed(&self) -> (candidates: Vec<(u64, String)>)
        requires
            self.wf(),
        ensures
            candidates@.map_values(|key: (u64, String)| (key.0, key.1@)) == self.pool_order().filter(
                |key: (u64, Seq<char>)| self.pools()[key].spec_needs_rebalancing(self.settings().rebalance_threshold),
            ),
    {
        let ghost pred = |key: (u64, Seq<char>)|
            self.pools()[key].spec_needs_rebalancing(self.settings().rebalance_threshold);
        let ghost order = self.pool_order();
        let mut candidates: Vec<(u64, String)> = Vec::new();
        let mut i: usize = 0;
        proof {
            lemma_filter_empty(order, pred);
            assert(candidates@.map_values(|key: (u64, String)| (key.0, key.1@)) =~= Seq::<(u64, Seq<char>)>::empty());
        }
        while i < self.pools.len()
            invariant
                self.wf(),
                order == self.pool_order(),
                pred == (|key: (u64, Seq<char>)|
                    self.pools()[key].spec_needs_rebalancing(self.settings().rebalance_threshold)),
                i <= order.len(),
                candidates@.map_values(|key: (u64, String)| (key.0, key.1@)) == order.take(i as int).filter(pred),
            decreases order.len() - i,
        {
            let pool = self.pools.value_at(i);
            let ghost before = candidates@;
            proof {
                self.lemma_pools();
                lemma_filter_step(order, pred, i as int);
            }
            if pool.needs_rebalancing(self.config.rebalance_threshold) {
                candidates.push((pool.chain_id, pool.token.clone()));
                assert(candidates@.map_values(|key: (u64, String)| (key.0, key.1@)) =~= before.map_values(
                    |key: (u64, String)| (key.0, key.1@),
                ).push(order[i as int]));
            }
            i += 1;
        }
        proof {
            lemma_take_all(order);
        }
        candidates
    }

    /// Trigger rebalancing for a specific pool: computes what must be added
    /// to the locked funds to reach the target utilization. An amount whose
    /// size exceeds the configured cap is rejected and nothing is recorded;
    /// otherwise the pool is stamped with the time `now`.
    pub fn trigger_rebalance(&mut self, chain_id: u64, token: &str, now: u64) -> (r: Result<
        RebalanceDecision,
        LiquidityError,
    >)
        requires
            old(self).wf(),
        ensures
            final(self).wf(),
            final(self).settings() == old(self).settings(),
            final(self).pool_order() == old(self).pool_order(),
            match r {
                Ok(decision) => {
                    let key = (chain_id, token@);
                    let pool = old(self).pools()[key];
                    &&& old(self).pools().dom().contains(key)
                    &&& decision == rebalance_decision(pool, old(self).settings())
                    &&& final(self).pools() == if decision == RebalanceDecision::Rejected {
                        old(self).pools()
                    } else {
                        old(self).pools().insert(key, stamped(pool, now))
                    }
                },
                Err(LiquidityError::PoolNotFound) => !old(self).pools().dom().contains((chain_id, token@))
                    && final(self).pools() == old(self).pools(),
                Err(_) => false,
            },
    {
        let (decision, pool) = match self.get_pool(chain_id, token) {
            None => {
                return Err(LiquidityError::PoolNotFound);
            },
            Some(pool) => {
                let total = pool.available + pool.locked;
                let (negative, magnitude) = self.config.target_utilization.signed_share_less(total, pool.locked);
                if magnitude > self.config.max_rebalance_usd as u128 {
                    return Ok(RebalanceDecision::Rejected);
                }
                let decision = if magnitude == 0 {
                    RebalanceDecision::Balanced
                } else if negative {
                    RebalanceDecision::RemoveLiquidity { amount: magnitude as u64 }
                } else {
                    RebalanceDecision::AddLiquidity { amount: magnitude as u64 }
                };
                let mut next = pool.duplicate();
                next.last_rebalance = now;
                (decision, next)
            },
        };
        let _ = self.replace(None, pool);
        Ok(decision)
    }

    /// Checks every pool and triggers a rebalance for each that needs one,
    /// in pool order. Funds are left as they are: a pool whose rebalance was
    /// not rejected is stamped with the time `now`, and nothing else changes.
    pub fn rebalance_all(&mut self, now: u64) -> (reports: Vec<RebalanceReport>)
        requires
            old(self).wf(),
        ensures
            final(self).wf(),
            final(self).settings() == old(self).settings(),
            final(self).pool_order() == old(self).pool_order(),
            final(self).pools().dom() == old(self).pools().dom(),
            reports@.map_values(|report: RebalanceReport| (report.chain_id, report.token@)) == old(self).pool_order().filter(
                |key: (u64, Seq<char>)|
                    old(self).pools()[key].spec_needs_rebalancing(old(self).settings().rebalance_threshold),
            ),
            forall|i: int|
                0 <= i < reports@.len() ==> (#[trigger] reports@[i]).decision == rebalance_decision(
                    old(self).pools()[(reports@[i].chain_id, reports@[i].token@)],
                    old(self).settings(),
                ),
            forall|key: (u64, Seq<char>)| #[trigger]
                old(self).pools().dom().contains(key) ==> final(self).pools()[key] == old(self).pools()[key] || final(self).pools()[key] == stamped(old(self).pools()[key], now),
            forall|key: (u64, Seq<char>)|
                #[trigger] old(self).pools().dom().contains(key) && old(self).pools()[key].spec_needs_rebalancing(
                    old(self).settings().rebalance_threshold,
                ) && rebalance_decision(old(self).pools()[key], old(self).settings()) != RebalanceDecision::Rejected
                    ==> final(self).pools()[key] == stamped(old(self).pools()[key], now),
    {
        let ghost before = *self;
        let ghost pred = |key: (u64, Seq<char>)|
            before.pools()[key].spec_needs_rebalancing(before.settings().rebalance_threshold);
        let ghost keys = before.pool_order().filter(pred);
        let candidates = self.check_rebalancing_needed();
        let ghost ids = candidates@.map_values(|key: (u64, String)| (key.0, key.1@));
        assert(ids == keys);
        let mut reports: Vec<RebalanceReport> = Vec::new();
        let mut i: usize = 0;
        proof {
            before.lemma_pools();
            assert(reports@.map_values(|report: RebalanceReport| (report.chain_id, report.token@)) =~= keys.take(0));
        }
        while i < candidates.len()
            invariant
                before.wf(),
                self.wf(),
                self.settings() == before.settings(),
                self.pool_order() == before.pool_order(),
                self.pools().dom() == before.pools().dom(),
                ids == candidates@.map_values(|key: (u64, String)| (key.0, key.1@)),
                ids == keys,
                keys == before.pool_order().filter(pred),
                pred == (|key: (u64, Seq<char>)|
                    before.pools()[key].spec_needs_rebalancing(before.settings().rebalance_threshold)),
                i <= candidates@.len(),
                reports@.len() == i,
                reports@.map_values(|report: RebalanceReport| (report.chain_id, report.token@)) == keys.take(i as int),
                forall|j: int|
                    0 <= j < i ==> (#[trigger] reports@[j]).decision == rebalance_decision(
                        before.pools()[(reports@[j].chain_id, reports@[j].token@)],
                        before.settings(),
                    ),
                forall|key: (u64, Seq<char>)| #[trigger]
                    before.pools().dom().contains(key) ==> self.pools()[key] == before.pools()[key]
                        || self.pools()[key] == stamped(before.pools()[key], now),
                forall|key: (u64, Seq<char>)|
                    #[trigger] before.pools().dom().contains(key) && keys.take(i as int).contains(key)
                        && rebalance_decision(before.pools()[key], before.settings()) != RebalanceDecision::Rejected
                        ==> self.pools()[key] == stamped(before.pools()[key], now),
            decreases candidates@.len() - i,
        {
            let chain_id = candidates[i].0;
            let token = candidates[i].1.clone();
            let ghost key = (chain_id, token@);
            let ghost mid = *self;
            proof {
                assert(ids[i as int] == key);
                lemma_filter_elements(before.pool_order(), pred, i as int);
                before.lemma_pools();
                let k = choose|k: int| 0 <= k < before.pool_order().len() && before.pool_order()[k] == key;
                assert(before.pools().dom().contains(before.pool_order()[k]));
            }
            let decision = match self.trigger_rebalance(chain_id, token.as_str(), now) {
                Ok(decision) => decision,
                Err(_) => {
                    assert(false);
                    RebalanceDecision::Rejected
                },
            };
            let ghost prior = reports@;
            reports.push(RebalanceReport { chain_id, token, decision });
            proof {
                assert(reports@.map_values(|report: RebalanceReport| (report.chain_id, report.token@)) =~= keys.take(
                    i as int + 1,
                ));
                assert(stamped(stamped(before.pools()[key], now), now) == stamped(before.pools()[key], now));
                assert(rebalance_decision(stamped(before.pools()[key], now), before.settings())
                    == rebalance_decision(before.pools()[key], before.settings()));
                assert(self.pools().dom() =~= before.pools().dom());
                let longer = keys.take(i as int + 1);
                assert forall|other: (u64, Seq<char>)|
                    #[trigger] before.pools().dom().contains(other) && longer.contains(other) && rebalance_decision(
                        before.pools()[other],
                        before.settings(),
                    ) != RebalanceDecision::Rejected implies self.pools()[other] == stamped(
                    before.pools()[other],
                    now,
                ) by {
                    if other != key {
                        let j = choose|j: int| 0 <= j < longer.len() && longer[j] == other;
                        assert(keys.take(i as int)[j] == other);
                    }
                }
            }
            i += 1;
        }
        proof {
            lemma_take_all(keys);
            assert forall|key: (u64, Seq<char>)|
                #[trigger] before.pools().dom().contains(key) && pred(key) && rebalance_decision(
                    before.pools()[key],
                    before.settings(),
                ) != RebalanceDecision::Rejected implies self.pools()[key] == stamped(before.pools()[key], now) by {
                before.lemma_pools();
                let order = before.pool_order();
                assert(order.to_set().contains(key));
                let k = choose|k: int| 0 <= k < order.len() && order[k] == key;
                order.lemma_filter_contains(pred, k);
            }
        }
        reports
    }
}

} // verus!
