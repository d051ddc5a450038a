//! The relayer's own ledger: what this relayer executed, how its relays
//! went, and the task claims it has stored.
//!
//! Executions are kept with the latest first, each withdrawal once. The
//! ledger is a value in memory; whoever owns it writes its records through
//! to durable storage.

use vstd::prelude::*;
use crate::clock::{clock_reading, unix_now};
use crate::seqs::{lemma_filter_empty, lemma_filter_step, lemma_take_all};
use crate::table::{Table, TextKey};
use crate::text::{opt_chars, str_eq};

verus! {

/// How many executions a history holds at most.
pub const HISTORY_LIMIT: usize = 100;

/// Withdrawal execution record (what we executed).
#[derive(Debug)]
pub struct WithdrawalExecution {
    pub withdrawal_id: String,
    pub tx_hash: String,
    pub chain_id: u64,
    pub executed_at: i64,
    pub gas_used: u64,
    pub fee_earned: u64,
}

/// Relayer performance statistics.
#[derive(Debug, Clone, Copy, PartialEq, Eq, Structural)]
pub struct RelayerStats {
    pub withdrawals_executed: u64,
    pub total_rewards: u64,
    pub successful_relays: u64,
    pub failed_relays: u64,
    pub total_gas_spent: u64,
}

/// How one relay went.
#[derive(Debug)]
pub struct RelayPerformance {
    pub withdrawal_id: String,
    pub success: bool,
    pub error_message: Option<String>,
    pub timestamp: i64,
}

/// A task claim as the ledger stores it.
#[derive(Debug)]
pub struct StoredClaim {
    pub claimed_by: String,
    pub claimed_at: i64,
    pub expires_at: i64,
}

#[derive(Debug, Clone, Copy, PartialEq, Eq, Structural)]
pub enum StoreError {
    /// An execution of this withdrawal is already recorded.
    DuplicateId,
}

/// An execution as a mathematical value.
pub struct ExecutionView {
    pub withdrawal_id: Seq<char>,
    pub tx_hash: Seq<char>,
    pub chain_id: u64,
    pub executed_at: i64,
    pub gas_used: u64,
    pub fee_earned: u64,
}

/// A relay's performance as a mathematical value.
pub struct PerformanceView {
    pub withdrawal_id: Seq<char>,
    pub success: bool,
    pub error_message: Option<Seq<char>>,
    pub timestamp: i64,
}

impl View for WithdrawalExecution {
    type V = ExecutionView;

    open spec fn view(&self) -> ExecutionView {
        ExecutionView {
            withdrawal_id: self.withdrawal_id@,
            tx_hash: self.tx_hash@,
            chain_id: self.chain_id,
            executed_at: self.executed_at,
            gas_used: self.gas_used,
            fee_earned: self.fee_earned,
        }
    }
}

impl View for RelayPerformance {
    type V = PerformanceView;

    open spec fn view(&self) -> PerformanceView {
        PerformanceView {
            withdrawal_id: self.withdrawal_id@,
            success: self.success,
            error_message: opt_chars(self.error_message),
            timestamp: self.timestamp,
        }
    }
}

impl WithdrawalExecution {
    pub fn duplicate(&self) -> (r: WithdrawalExecution)
        ensures
            r@ == self@,
    {
        WithdrawalExecution {
            withdrawal_id: self.withdrawal_id.clone(),
            tx_hash: self.tx_hash.clone(),
            chain_id: self.chain_id,
            executed_at: self.executed_at,
            gas_used: self.gas_used,
            fee_earned: self.fee_earned,
        }
    }
}

/// The views of a list of executions.
pub open spec fn execution_views(executions: Seq<WithdrawalExecution>) -> Seq<ExecutionView> {
    executions.map_values(|e: WithdrawalExecution| e@)
}

/// The views of a list of performances.
pub open spec fn performance_views(performances: Seq<RelayPerformance>) -> Seq<PerformanceView> {
    performances.map_values(|p: RelayPerformance| p@)
}

/// No withdrawal occurs twice, and the latest execution comes first.
pub open spec fn latest_first(executions: Seq<ExecutionView>) -> bool {
    &&& forall|i: int, j: int|
        0 <= i < j < executions.len() ==> (#[trigger] executions[i]).withdrawal_id != (
        #[trigger] executions[j]).withdrawal_id
    &&& forall|i: int, j: int|
        0 <= i < j < executions.len() ==> (#[trigger] executions[i]).executed_at >= (
        #[trigger] executions[j]).executed_at
}

/// An execution of the withdrawal is recorded.
pub open spec fn has_execution(executions: Seq<ExecutionView>, withdrawal_id: Seq<char>) -> bool {
    exists|i: int| 0 <= i < executions.len() && (#[trigger] executions[i]).withdrawal_id == withdrawal_id
}

/// Among executions with the latest first, `pos` is where one executed at
/// `at` goes: behind every execution that is not earlier.
pub open spec fn is_history_point(executions: Seq<ExecutionView>, at: i64, pos: int) -> bool {
    &&& 0 <= pos <= executions.len()
    &&& forall|j: int| 0 <= j < pos ==> (#[trigger] executions[j]).executed_at >= at
    &&& forall|j: int| pos <= j < executions.len() ==> (#[trigger] executions[j]).executed_at < at
}

/// A new execution as it is recorded: without chain, gas or fee.
pub open spec fn new_execution(withdrawal_id: Seq<char>, tx_hash: Seq<char>, executed_at: i64) -> ExecutionView {
    ExecutionView { withdrawal_id, tx_hash, chain_id: 0, executed_at, gas_used: 0, fee_earned: 0 }
}

/// The sum of the gas that the executions used.
pub open spec fn gas_spent(executions: Seq<ExecutionView>) -> int
    decreases executions.len(),
{
    if executions.len() == 0 {
        0
    } else {
        gas_spent(executions.drop_last()) + executions.last().gas_used
    }
}

/// The sum of the fees that the executions earned.
pub open spec fn fees_earned(executions: Seq<ExecutionView>) -> int
    decreases executions.len(),
{
    if executions.len() == 0 {
        0
    } else {
        fees_earned(executions.drop_last()) + executions.last().fee_earned
    }
}

/// A sum cut to 64 bits.
pub open spec fn capped(sum: int) -> u64 {
    if sum > u64::MAX {
        u64::MAX
    } else {
        sum as u64
    }
}

/// The statistics of a ledger with these executions and performances.
pub open spec fn stats_of(executions: Seq<ExecutionView>, performances: Seq<PerformanceView>) -> RelayerStats {
    RelayerStats {
        withdrawals_executed: executions.len() as u64,
        total_rewards: capped(fees_earned(executions)),
        successful_relays: performances.filter(|p: PerformanceView| p.success).len() as u64,
        failed_relays: performances.filter(|p: PerformanceView| !p.success).len() as u64,
        total_gas_spent: capped(gas_spent(executions)),
    }
}

/// When a claim stored at `now` for `ttl_seconds` ends, within the range of
/// 64-bit time.
pub open spec fn claim_end(now: i64, ttl_seconds: i64) -> i64 {
    if now + ttl_seconds > i64::MAX {
        i64::MAX
    } else if now + ttl_seconds < i64::MIN {
        i64::MIN
    } else {
        (now + ttl_seconds) as i64
    }
}

pub struct RelayerDatabase {
    executions: Vec<WithdrawalExecution>,
    performances: Vec<RelayPerformance>,
    task_claims: Table<TextKey, StoredClaim>,
}

impl RelayerDatabase {
    /// The executions, the latest first.
    pub closed spec fn executions(&self) -> Seq<ExecutionView> {
        execution_views(self.executions@)
    }

    /// How the relays went, in the order in which they were recorded.
    pub closed spec fn performances(&self) -> Seq<PerformanceView> {
        performance_views(self.performances@)
    }

    /// The stored task claims, by task.
    pub closed spec fn task_claims(&self) -> Map<Seq<char>, StoredClaim> {
        self.task_claims@
    }

    pub closed spec fn claims_wf(&self) -> bool {
        self.task_claims.wf()
    }

    pub open spec fn wf(&self) -> bool {
        self.claims_wf() && latest_first(self.executions())
    }

    /// An empty ledger.
    pub fn new() -> (db: RelayerDatabase)
        ensures
            db.wf(),
            db.executions() == Seq::<ExecutionView>::empty(),
            db.performances() == Seq::<PerformanceView>::empty(),
            db.task_claims() == Map::<Seq<char>, StoredClaim>::empty(),
    {
        let db = RelayerDatabase { executions: Vec::new(), performances: Vec::new(), task_claims: Table::new() };
        assert(db.executions() =~= Seq::<ExecutionView>::empty());
        assert(db.performances() =~= Seq::<PerformanceView>::empty());
        db
    }

    /// Records how a relay went, at the time `now`.
    pub fn record_relay_performance_at(&mut self, withdrawal_id: &str, success: bool, error_message: Option<&str>, now: i64)
        requires
            old(self).wf(),
        ensures
            final(self).wf(),
            final(self).executions() == old(self).executions(),
            final(self).task_claims() == old(self).task_claims(),
            final(self).performances() == old(self).performances().push(
                PerformanceView {
                    withdrawal_id: withdrawal_id@,
                    success,
                    error_message: match error_message {
                        Some(message) => Some(message@),
                        None => None,
                    },
                    timestamp: now,
                },
            ),
    {
        let ghost before = self.performances();
        let record = RelayPerformance {
            withdrawal_id: withdrawal_id.to_owned(),
            success,
            error_message: match error_message {
                Some(message) => Some(message.to_owned()),
                None => None,
            },
            timestamp: now,
        };
        let ghost view = record@;
        self.performances.push(record);
        assert(self.performances() =~= before.push(view));
    }

    /// Record relay performance, by the clock.
    pub fn record_relay_performance(&mut self, withdrawal_id: &str, success: bool, error_message: Option<&str>)
        requires
            old(self).wf(),
        ensures
            exists|now: i64|
                #![trigger clock_reading(now)]
                {
                    &&& clock_reading(now)
                    &&& final(self).wf()
                    &&& final(self).executions() == old(self).executions()
                    &&& final(self).task_claims() == old(self).task_claims()
                    &&& final(self).performances() == old(self).performances().push(
                        PerformanceView {
                            withdrawal_id: withdrawal_id@,
                            success,
                            error_message: match error_message {
                                Some(message) => Some(message@),
                                None => None,
                            },
                            timestamp: now,
                        }
                    )
                },
    {
        let now = unix_now();
        self.record_relay_performance_at(withdrawal_id, success, error_message, now);
        assert(clock_reading(now));
    }

    fn find_execution(&self, withdrawal_id: &str) -> (found: bool)
        ensures
            found == has_execution(self.executions(), withdrawal_id@),
    {
        let mut i: usize = 0;
        while i < self.executions.len()
            invariant
                i <= self.executions@.len(),
                forall|j: int| 0 <= j < i ==> (#[trigger] self.executions()[j]).withdrawal_id != withdrawal_id@,
            decreases self.executions@.len() - i,
        {
            if str_eq(self.executions[i].withdrawal_id.as_str(), withdrawal_id) {
                assert(self.executions()[i as int].withdrawal_id == withdrawal_id@);
                return true;
            }
            i += 1;
        }
        false
    }

    /// Records the execution of a withdrawal and, at the time `now`, that
    /// its relay succeeded. An execution of a withdrawal that is recorded
    /// already is refused, and the ledger stays as it was.
    pub fn record_withdrawal_execution_at(&mut self, withdrawal_id: &str, tx_hash: &str, executed_at: i64, now: i64) -> (r:
        Result<(), StoreError>)
        requires
            old(self).wf(),
        ensures
            final(self).wf(),
            final(self).task_claims() == old(self).task_claims(),
            match r {
                Ok(()) => {
                    &&& !has_execution(old(self).executions(), withdrawal_id@)
                    &&& exists|pos: int|
                        {
                            &&& #[trigger] is_history_point(old(self).executions(), executed_at, pos)
                            &&& final(self).executions() == old(self).executions().insert(
                                pos,
                                new_execution(withdrawal_id@, tx_hash@, executed_at),
                            )
                        }
                    &&& final(self).performances() == old(self).performances().push(
                        PerformanceView { withdrawal_id: withdrawal_id@, success: true, error_message: None, timestamp: now },
                    )
                },
                Err(StoreError::DuplicateId) => {
                    &&& has_execution(old(self).executions(), withdrawal_id@)
                    &&& final(self).executions() == old(self).executions()
                    &&& final(self).performances() == old(self).performances()
                },
            },
    {
        if self.find_execution(withdrawal_id) {
            return Err(StoreError::DuplicateId);
        }
        let ghost before = self.executions();
        let mut pos: usize = 0;
        while pos < self.executions.len() && self.executions[pos].executed_at >= executed_at
            invariant
                pos <= self.executions@.len(),
                before == self.executions(),
                forall|j: int| 0 <= j < pos ==> (#[trigger] before[j]).executed_at >= executed_at,
            decreases self.executions@.len() - pos,
        {
            pos += 1;
        }
        let execution = WithdrawalExecution {
            withdrawal_id: withdrawal_id.to_owned(),
            tx_hash: tx_hash.to_owned(),
            chain_id: 0,
            executed_at,
            gas_used: 0,
            fee_earned: 0,
        };
        let ghost view = execution@;
        self.executions.insert(pos, execution);
        proof {
            assert(self.executions() =~= before.insert(pos as int, view));
            assert(is_history_point(before, executed_at, pos as int)) by {
                assert forall|j: int| pos <= j < before.len() implies (#[trigger] before[j]).executed_at
                    < executed_at by {
                    assert(before[pos as int].executed_at >= before[j].executed_at || j == pos);
                }
            }
            let after = self.executions();
            assert forall|i: int, j: int| 0 <= i < j < after.len() implies (#[trigger] after[i]).withdrawal_id != (
            #[trigger] after[j]).withdrawal_id && after[i].executed_at >= after[j].executed_at by {
                let oi = if i < pos { i } else { i - 1 };
                let oj = if j < pos { j } else { j - 1 };
                if i != pos && j != pos {
                    assert(before[oi].withdrawal_id != before[oj].withdrawal_id);
                    assert(before[oi].executed_at >= before[oj].executed_at);
                } else if i == pos {
                    assert(before[oj].withdrawal_id != view.withdrawal_id);
                    assert(before[oj].executed_at < executed_at);
                } else {
                    assert(before[oi].withdrawal_id != view.withdrawal_id);
                }
            }
        }
        self.record_relay_performance_at(withdrawal_id, true, None, now);
        Ok(())
    }

    /// Record successful withdrawal execution, by the clock.
    pub fn record_withdrawal_execution(&mut self, withdrawal_id: &str, tx_hash: &str, executed_at: i64) -> (r: Result<
        (),
        StoreError,
    >)
        requires
            old(self).wf(),
        ensures
            exists|now: i64|
                #![trigger clock_reading(now)]
                {
                    &&& clock_reading(now)
                    &&& final(self).wf()
                    &&& final(self).task_claims() == old(self).task_claims()
                    &&& match r {
                        Ok(()) => {
                            &&& !has_execution(old(self).executions(), withdrawal_id@)
                            &&& exists|pos: int|
                                {
                                    &&& #[trigger] is_history_point(old(self).executions(), executed_at, pos)
                                    &&& final(self).executions() == old(self).executions().insert(
                                        pos,
                                        new_execution(withdrawal_id@, tx_hash@, executed_at),
                                    )
                                }
                            &&& final(self).performances() == old(self).performances().push(
                                PerformanceView { withdrawal_id: withdrawal_id@, success: true, error_message: None, timestamp: now },
                            )
                        },
                        Err(StoreError::DuplicateId) => {
                            &&& has_execution(old(self).executions(), withdrawal_id@)
                            &&& final(self).executions() == old(self).executions()
                            &&& final(self).performances() == old(self).performances()
                        },
                    }
                },
    {
        let now = unix_now();
        let r = self.record_withdrawal_execution_at(withdrawal_id, tx_hash, executed_at, now);
        assert(clock_reading(now));
        r
    }

    fn claim_end_of(now: i64, ttl_seconds: i64) -> (end: i64)
        ensures
            end == claim_end(now, ttl_seconds),
    {
        match now.checked_add(ttl_seconds) {
            Some(end) => end,
            None => if ttl_seconds >= 0 {
                i64::MAX
            } else {
                i64::MIN
            },
        }
    }

    /// Stores a task claim made at the time `now`, in the place of any
    /// claim on the same task.
    pub fn store_task_claim_at(&mut self, task_id: &str, claimed_by: &str, ttl_seconds: i64, now: i64)
        requires
            old(self).wf(),
        ensures
            final(self).wf(),
            final(self).executions() == old(self).executions(),
            final(self).performances() == old(self).performances(),
            final(self).task_claims().dom() == old(self).task_claims().dom().insert(task_id@),
            forall|other: Seq<char>|
                other != task_id@ && old(self).task_claims().dom().contains(other) ==> #[trigger] final(self).task_claims()[other] == old(self).task_claims()[other],
            final(self).task_claims()[task_id@].claimed_by@ == claimed_by@,
            final(self).task_claims()[task_id@].claimed_at == now,
            final(self).task_claims()[task_id@].expires_at == claim_end(now, ttl_seconds),
    {
        let claim = StoredClaim {
            claimed_by: claimed_by.to_owned(),
            claimed_at: now,
            expires_at: Self::claim_end_of(now, ttl_seconds),
        };
        self.task_claims.insert(TextKey(task_id.to_owned()), claim);
    }

    /// Store P2P task claim, by the clock.
    pub fn store_task_claim(&mut self, task_id: &str, claimed_by: &str, ttl_seconds: i64)
        requires
            old(self).wf(),
        ensures
            exists|now: i64|
                #![trigger clock_reading(now)]
                {
                    &&& clock_reading(now)
                    &&& final(self).wf()
                    &&& final(self).executions() == old(self).executions()
                    &&& final(self).performances() == old(self).performances()
                    &&& final(self).task_claims().dom() == old(self).task_claims().dom().insert(task_id@)
                    &&& forall|other: Seq<char>|
                        other != task_id@ && old(self).task_claims().dom().contains(other) ==> #[trigger] final(self).task_claims()[other] == old(self).task_claims()[other]
                    &&& final(self).task_claims()[task_id@].claimed_by@ == claimed_by@
                    &&& final(self).task_claims()[task_id@].claimed_at == now
                    &&& final(self).task_claims()[task_id@].expires_at == claim_end(now, ttl_seconds)
                },
    {
        let now = unix_now();
        self.store_task_claim_at(task_id, claimed_by, ttl_seconds, now);
        assert(clock_reading(now));
    }

    /// Whether a claim on the task is stored that has not ended at `now`.
    pub fn is_task_claimed_at(&self, task_id: &str, now: i64) -> (b: bool)
        requires
            self.wf(),
        ensures
            b == (self.task_claims().dom().contains(task_id@) && self.task_claims()[task_id@].expires_at > now),
    {
        match self.task_claims.get(&TextKey(task_id.to_owned())) {
            Some(claim) => claim.expires_at > now,
            None => false,
        }
    }

    /// Check if task is claimed by someone else, by the clock.
    pub fn is_task_claimed(&self, task_id: &str) -> (b: bool)
        requires
            self.wf(),
        ensures
            exists|now: i64|
                #![trigger clock_reading(now)]
                {
                    &&& clock_reading(now)
                    &&& b == (self.task_claims().dom().contains(task_id@) && self.task_claims()[task_id@].expires_at > now)
                },
    {
        let now = unix_now();
        let b = self.is_task_claimed_at(task_id, now);
        assert(clock_reading(now));
        b
    }

    /// Takes the claims that ended before the time `now` off the ledger.
    pub fn cleanup_expired_claims_at(&mut self, now: i64)
        requires
            old(self).wf(),
        ensures
            final(self).wf(),
            final(self).executions() == old(self).executions(),
            final(self).performances() == old(self).performances(),
            forall|task_id: Seq<char>| #[trigger]
                final(self).task_claims().dom().contains(task_id) <==> (old(self).task_claims().dom().contains(task_id)
                    && old(self).task_claims()[task_id].expires_at >= now),
            forall|task_id: Seq<char>| #[trigger]
                final(self).task_claims().dom().contains(task_id) ==> final(self).task_claims()[task_id] == old(self).task_claims()[task_id],
    {
        let ghost before = self.task_claims;
        let mut i: usize = 0;
        proof {
            before.lemma_ids();
        }
        while i < self.task_claims.len()
            invariant
                before.wf(),
                self.task_claims.wf(),
                self.executions == old(self).executions,
                self.performances == old(self).performances,
                before@ == old(self).task_claims(),
                i <= self.task_claims.ids().len(),
                forall|task_id: Seq<char>| #[trigger]
                    self.task_claims@.dom().contains(task_id) ==> before@.dom().contains(task_id)
                        && self.task_claims@[task_id] == before@[task_id],
                forall|task_id: Seq<char>|
                    before@.dom().contains(task_id) && before@[task_id].expires_at >= now
                        ==> #[trigger] self.task_claims@.dom().contains(task_id),
                forall|j: int|
                    0 <= j < i ==> self.task_claims@[#[trigger] self.task_claims.ids()[j]].expires_at >= now,
            decreases self.task_claims.ids().len() - i,
        {
            if self.task_claims.value_at(i).expires_at >= now {
                i += 1;
            } else {
                let ghost mid = self.task_claims;
                let _ = self.task_claims.remove_at(i);
                proof {
                    assert forall|j: int| 0 <= j < i implies self.task_claims@[#[trigger] self.task_claims.ids()[j]].expires_at
                        >= now by {
                        assert(self.task_claims.ids()[j] == mid.ids()[j]);
                        mid.lemma_ids();
                        assert(mid.ids()[j] != mid.ids()[i as int]);
                    }
                }
            }
        }
        proof {
            self.task_claims.lemma_ids();
            assert forall|task_id: Seq<char>| #[trigger]
                self.task_claims().dom().contains(task_id) implies old(self).task_claims()[task_id].expires_at
                >= now by {
                assert(self.task_claims.ids().to_set().contains(task_id));
                let j = choose|j: int| 0 <= j < self.task_claims.ids().len() && self.task_claims.ids()[j] == task_id;
                assert(self.task_claims@[self.task_claims.ids()[j]].expires_at >= now);
            }
        }
    }

    /// Clean up expired task claims, by the clock.
    pub fn cleanup_expired_claims(&mut self)
        requires
            old(self).wf(),
        ensures
            exists|now: i64|
                #![trigger clock_reading(now)]
                {
                    &&& clock_reading(now)
                    &&& final(self).wf()
                    &&& final(self).executions() == old(self).executions()
                    &&& final(self).performances() == old(self).performances()
                    &&& forall|task_id: Seq<char>| #[trigger]
                        final(self).task_claims().dom().contains(task_id) <==> (old(self).task_claims().dom().contains(task_id)
                            && old(self).task_claims()[task_id].expires_at >= now)
                    &&& forall|task_id: Seq<char>| #[trigger]
                        final(self).task_claims().dom().contains(task_id) ==> final(self).task_claims()[task_id] == old(self).task_claims()[task_id]
                },
    {
        let now = unix_now();
        self.cleanup_expired_claims_at(now);
        assert(clock_reading(now));
    }

    /// Get relayer statistics.
    pub fn get_stats(&self) -> (stats: RelayerStats)
        requires
            self.wf(),
        ensures
            stats == stats_of(self.executions(), self.performances()),
    {
        let ghost executions = self.executions();
        let ghost performances = self.performances();
        let ghost succeeded = |p: PerformanceView| p.success;
        let ghost failed = |p: PerformanceView| !p.success;
        let mut gas: u64 = 0;
        let mut fees: u64 = 0;
        let mut i: usize = 0;
        proof {
            assert(executions.take(0) =~= Seq::<ExecutionView>::empty());
        }
        while i < self.executions.len()
            invariant
                i <= self.executions@.len(),
                executions == self.executions(),
                gas == capped(gas_spent(executions.take(i as int))),
                fees == capped(fees_earned(executions.take(i as int))),
                gas_spent(executions.take(i as int)) >= 0,
                fees_earned(executions.take(i as int)) >= 0,
            decreases self.executions@.len() - i,
        {
            proof {
                assert(executions.take(i as int + 1).drop_last() =~= executions.take(i as int));
                assert(executions.take(i as int + 1).last() == executions[i as int]);
            }
            gas = gas.saturating_add(self.executions[i].gas_used);
            fees = fees.saturating_add(self.executions[i].fee_earned);
            i += 1;
        }
        let mut successful: u64 = 0;
        let mut unsuccessful: u64 = 0;
        let mut j: usize = 0;
        proof {
            lemma_take_all(executions);
            lemma_filter_empty(performances, succeeded);
            lemma_filter_empty(performances, failed);
        }
        while j < self.performances.len()
            invariant
                j <= self.performances@.len(),
                performances == self.performances(),
                succeeded == (|p: PerformanceView| p.success),
                failed == (|p: PerformanceView| !p.success),
                successful == performances.take(j as int).filter(succeeded).len(),
                unsuccessful == performances.take(j as int).filter(failed).len(),
                successful <= j,
                unsuccessful <= j,
            decreases self.performances@.len() - j,
        {
            proof {
                lemma_filter_step(performances, succeeded, j as int);
                lemma_filter_step(performances, failed, j as int);
            }
            if self.performances[j].success {
                successful += 1;
            } else {
                unsuccessful += 1;
            }
            j += 1;
        }
        proof {
            lemma_take_all(performances);
        }
        RelayerStats {
            withdrawals_executed: self.executions.len() as u64,
            total_rewards: fees,
            successful_relays: successful,
            failed_relays: unsuccessful,
            total_gas_spent: gas,
        }
    }

    /// Get execution history for a specific chain: the executions on the
    /// chain, the latest first, and `HISTORY_LIMIT` of them at most.
    pub fn get_executions_for_chain(&self, chain_id: u64) -> (history: Vec<WithdrawalExecution>)
        requires
            self.wf(),
        ensures
            execution_views(history@) == {
                let on_chain = self.executions().filter(|e: ExecutionView| e.chain_id == chain_id);
                if on_chain.len() > HISTORY_LIMIT {
                    on_chain.take(HISTORY_LIMIT as int)
                } else {
                    on_chain
                }
            },
    {
        let ghost pred = |e: ExecutionView| e.chain_id == chain_id;
        let ghost all = self.executions();
        let mut history: Vec<WithdrawalExecution> = Vec::new();
        let mut i: usize = 0;
        proof {
            lemma_filter_empty(all, pred);
            assert(execution_views(history@) =~= Seq::<ExecutionView>::empty());
        }
        while i < self.executions.len() && history.len() < HISTORY_LIMIT
            invariant
                i <= self.executions@.len(),
                all == self.executions(),
                pred == (|e: ExecutionView| e.chain_id == chain_id),
                execution_views(history@) == all.take(i as int).filter(pred),
                history@.len() <= HISTORY_LIMIT,
            decreases self.executions@.len() - i,
        {
            let ghost before = history@;
            proof {
                lemma_filter_step(all, pred, i as int);
            }
            if self.executions[i].chain_id == chain_id {
                history.push(self.executions[i].duplicate());
                assert(execution_views(history@) =~= execution_views(before).push(all[i as int]));
            }
            i += 1;
        }
        proof {
            let on_chain = all.filter(pred);
            let seen = all.take(i as int).filter(pred);
            assert(all =~= all.take(i as int) + all.skip(i as int));
            Seq::filter_distributes_over_add(all.take(i as int), all.skip(i as int), pred);
            assert(on_chain == seen + all.skip(i as int).filter(pred));
            if i == all.len() {
                lemma_take_all(all);
            } else {
                assert(seen.len() == HISTORY_LIMIT);
                assert(on_chain.take(HISTORY_LIMIT as int) =~= seen);
                if on_chain.len() <= HISTORY_LIMIT {
                    assert(on_chain =~= seen);
                }
            }
        }
        history
    }
}

} // verus!
