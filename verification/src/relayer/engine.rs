//! The relayer engine: what to do about an authorized withdrawal.
//!
//! A withdrawal that a peer has claimed is skipped. Any other is claimed
//! and prepared for submission. Once the submission is confirmed, the claim
//! is taken off and the execution goes into the ledger. A submission that
//! fails leaves the claim to run out, so that this relayer or a peer tries
//! again: the relayer never gives a withdrawal up for good.

use vstd::prelude::*;
use crate::clock::{clock_reading, unix_now};
use crate::relayer::config::{is_first_with_id, ChainConfig, RelayerConfig};
use crate::relayer::coordinator_client::AuthorizedWithdrawal;
use crate::relayer::database::{
    has_execution, is_history_point, new_execution, ExecutionView, PerformanceView, RelayerDatabase, };
use crate::relayer::p2p_network::{claimed, lease_end, message_says, took_in, P2PNetwork, PeerMessage, TaskClaim};
use crate::relayer::stake_manager::StakeManager;
use crate::relayer::transaction_executor::{prepared, ExecutionError, Submission, TransactionExecutor};

verus! {

/// What a tick of the relayer's loop is to do besides the withdrawals.
#[derive(Debug, Clone, Copy, PartialEq, Eq, Structural)]
pub struct TickPlan {
    /// Every tenth tick is logged.
    pub log_tick: bool,
    /// Every sixtieth tick claims the rewards.
    pub claim_rewards: bool,
    /// Every thirtieth tick updates the metrics.
    pub update_metrics: bool,
    /// Every fifth tick sends a heartbeat to the peers.
    pub send_heartbeat: bool,
}

/// The plan of the tick with the number `tick_count`, counted from one.
pub fn tick_plan(tick_count: u64) -> (plan: TickPlan)
    ensures
        plan.log_tick == (tick_count % 10 == 0),
        plan.claim_rewards == (tick_count % 60 == 0),
        plan.update_metrics == (tick_count % 30 == 0),
        plan.send_heartbeat == (tick_count % 5 == 0),
{
    TickPlan {
        log_tick: tick_count % 10 == 0,
        claim_rewards: tick_count % 60 == 0,
        update_metrics: tick_count % 30 == 0,
        send_heartbeat: tick_count % 5 == 0,
    }
}

/// What to do about an authorized withdrawal.
#[derive(Debug)]
pub enum RelayStep {
    /// A claim on the withdrawal is on record and has not ended.
    AlreadyClaimed,
    /// The withdrawal was claimed, but carries no authorization signature.
    InvalidSignature { claim_message: String },
    /// The withdrawal was claimed, but nothing can be submitted for it.
    CannotSubmit { claim_message: String, error: ExecutionError },
    /// The withdrawal was claimed: the claim is to be told to the peers and
    /// the submission is to be made.
    Submit { claim_message: String, submission: Submission },
}

/// What became of a confirmed submission.
#[derive(Debug)]
pub struct RelayReceipt {
    /// The message that tells the peers of the execution.
    pub execution_message: String,
    /// Whether the execution went into the ledger: it does unless an
    /// execution of the withdrawal was there already.
    pub recorded: bool,
}

pub struct Relayer {
    p2p_network: P2PNetwork,
    tx_executor: TransactionExecutor,
    db: RelayerDatabase,
    stake_manager: StakeManager,
}

/// A withdrawal counts as authorized where its signature is not empty.
pub open spec fn signature_present(withdrawal: AuthorizedWithdrawal) -> bool {
    withdrawal.authorization_signature@.len() > 0
}

impl Relayer {
    /// The claims on record, by task.
    pub closed spec fn claims(&self) -> Map<Seq<char>, TaskClaim> {
        self.p2p_network.claims()
    }

    /// The address under which this relayer claims tasks.
    pub closed spec fn address(&self) -> Seq<char> {
        self.p2p_network.address()
    }

    /// The executions in the ledger, the latest first.
    pub closed spec fn executions(&self) -> Seq<ExecutionView> {
        self.db.executions()
    }

    /// How the relays went.
    pub closed spec fn performances(&self) -> Seq<PerformanceView> {
        self.db.performances()
    }

    /// The configured chains.
    pub closed spec fn chains(&self) -> Seq<ChainConfig> {
        self.tx_executor.chains()
    }

    /// The stake of this relayer.
    pub closed spec fn stake(&self) -> StakeManager {
        self.stake_manager
    }

    pub closed spec fn wf(&self) -> bool {
        self.p2p_network.wf() && self.db.wf()
    }

    /// A relayer with no claims and an empty ledger.
    pub fn new(config: RelayerConfig) -> (relayer: Relayer)
        ensures
            relayer.wf(),
            relayer.claims() == Map::<Seq<char>, TaskClaim>::empty(),
            relayer.executions() == Seq::<ExecutionView>::empty(),
            relayer.performances() == Seq::<PerformanceView>::empty(),
            relayer.address() == config.relayer_identity.address@,
            relayer.chains() == config.chains@,
            relayer.stake().minimum_stake() == config.staking.minimum_stake,
            relayer.stake().current_stake() == config.staking.current_stake,
    {
        let p2p_network = P2PNetwork::new(&config);
        let stake_manager = StakeManager::new(&config);
        Relayer { p2p_network, tx_executor: TransactionExecutor::new(config), db: RelayerDatabase::new(), stake_manager }
    }

    /// The task claims.
    pub fn p2p_network(&self) -> (network: &P2PNetwork)
        requires
            self.wf(),
        ensures
            network.wf(),
            network.claims() == self.claims(),
            network.address() == self.address(),
    {
        &self.p2p_network
    }

    /// The ledger.
    pub fn db(&self) -> (db: &RelayerDatabase)
        requires
            self.wf(),
        ensures
            db.wf(),
            db.executions() == self.executions(),
            db.performances() == self.performances(),
    {
        &self.db
    }

    /// The stake.
    pub fn stake_manager(&self) -> (manager: &StakeManager)
        ensures
            *manager == self.stake(),
    {
        &self.stake_manager
    }

    /// Takes in a message that came from a peer at the time `now`: a claim
    /// is put on record in the peer's name, an execution takes the claim on
    /// its withdrawal off the record, anything else changes nothing. The
    /// ledger and the stake stay as they are.
    pub fn handle_peer_message_at(&mut self, message: &str, now: i64) -> (read: PeerMessage)
        requires
            old(self).wf(),
        ensures
            final(self).wf(),
            final(self).address() == old(self).address(),
            final(self).executions() == old(self).executions(),
            final(self).performances() == old(self).performances(),
            final(self).chains() == old(self).chains(),
            final(self).stake() == old(self).stake(),
            message_says(message@, read),
            took_in(old(self).claims(), final(self).claims(), read, now),
    {
        self.p2p_network.handle_incoming_message_at(message, now)
    }

    /// Verify coordinator's authorization signature: it must not be empty.
    pub fn verify_coordinator_signature(&self, withdrawal: &AuthorizedWithdrawal) -> (valid: bool)
        ensures
            valid == signature_present(*withdrawal),
    {
        withdrawal.authorization_signature.len() > 0
    }

    /// Takes up an authorized withdrawal at the time `now`. A withdrawal
    /// that is claimed is left alone. Any other is claimed for this
    /// relayer; then its signature is checked and its submission prepared.
    pub fn begin_relay_at(&mut self, withdrawal: &AuthorizedWithdrawal, now: i64) -> (step: RelayStep)
        requires
            old(self).wf(),
        ensures
            final(self).wf(),
            final(self).address() == old(self).address(),
            final(self).executions() == old(self).executions(),
            final(self).performances() == old(self).performances(),
            final(self).chains() == old(self).chains(),
            final(self).stake() == old(self).stake(),
            step is AlreadyClaimed <==> claimed(old(self).claims(), withdrawal.withdrawal_id@, now),
            step is AlreadyClaimed ==> final(self).claims() == old(self).claims(),
            !(step is AlreadyClaimed) ==> {
                let id = withdrawal.withdrawal_id@;
                &&& final(self).claims().dom() == old(self).claims().dom().insert(id)
                &&& forall|other: Seq<char>|
                    other != id && old(self).claims().dom().contains(other) ==> #[trigger] final(self).claims()[other]
                        == old(self).claims()[other]
                &&& final(self).claims()[id].claimed_by@ == old(self).address()
                &&& final(self).claims()[id].claimed_at == now
                &&& final(self).claims()[id].expires_at == lease_end(now)
            },
            match step {
                RelayStep::AlreadyClaimed => true,
                RelayStep::InvalidSignature { claim_message } => {
                    &&& claim_message@ == "CLAIM:"@ + withdrawal.withdrawal_id@
                    &&& !signature_present(*withdrawal)
                },
                RelayStep::CannotSubmit { claim_message, error } => {
                    &&& claim_message@ == "CLAIM:"@ + withdrawal.withdrawal_id@
                    &&& signature_present(*withdrawal)
                    &&& submission_of(old(self).chains(), *withdrawal, Err::<Submission, ExecutionError>(error))
                },
                RelayStep::Submit { claim_message, submission } => {
                    &&& claim_message@ == "CLAIM:"@ + withdrawal.withdrawal_id@
                    &&& signature_present(*withdrawal)
                    &&& submission_of(old(self).chains(), *withdrawal, Ok::<Submission, ExecutionError>(submission))
                },
            },
    {
        if self.p2p_network.is_task_claimed_at(withdrawal.withdrawal_id.as_str(), now) {
            return RelayStep::AlreadyClaimed;
        }
        let claim_message = self.p2p_network.broadcast_task_claim_at(withdrawal.withdrawal_id.as_str(), now);
        if !self.verify_coordinator_signature(withdrawal) {
            return RelayStep::InvalidSignature { claim_message };
        }
        match self.tx_executor.execute_withdrawal(
            withdrawal.target_chain_id,
            withdrawal.recipient.as_str(),
            withdrawal.token.as_str(),
            withdrawal.amount,
            withdrawal.nullifier.as_slice(),
            withdrawal.authorization_signature.as_slice(),
        ) {
            Ok(submission) => RelayStep::Submit { claim_message, submission },
            Err(error) => RelayStep::CannotSubmit { claim_message, error },
        }
    }

    /// Takes up an authorized withdrawal, by the clock.
    pub fn begin_relay(&mut self, withdrawal: &AuthorizedWithdrawal) -> (step: RelayStep)
        requires
            old(self).wf(),
        ensures
            exists|now: i64|
                #![trigger clock_reading(now)]
                {
                    &&& clock_reading(now)
                    &&& final(self).wf()
                    &&& final(self).address() == old(self).address()
                    &&& final(self).executions() == old(self).executions()
                    &&& final(self).performances() == old(self).performances()
                    &&& final(self).chains() == old(self).chains()
                    &&& final(self).stake() == old(self).stake()
                    &&& step is AlreadyClaimed <==> claimed(old(self).claims(), withdrawal.withdrawal_id@, now)
                    &&& step is AlreadyClaimed ==> final(self).claims() == old(self).claims()
                    &&& !(step is AlreadyClaimed) ==> {
                        let id = withdrawal.withdrawal_id@;
                        &&& final(self).claims().dom() == old(self).claims().dom().insert(id)
                        &&& forall|other: Seq<char>|
                            other != id && old(self).claims().dom().contains(other) ==> #[trigger] final(self).claims()[other]
                                == old(self).claims()[other]
                        &&& final(self).claims()[id].claimed_by@ == old(self).address()
                        &&& final(self).claims()[id].claimed_at == now
                        &&& final(self).claims()[id].expires_at == lease_end(now)
                    }
                    &&& match step {
                        RelayStep::AlreadyClaimed => true,
                        RelayStep::InvalidSignature { claim_message } => {
                            &&& claim_message@ == "CLAIM:"@ + withdrawal.withdrawal_id@
                            &&& !signature_present(*withdrawal)
                        },
                        RelayStep::CannotSubmit { claim_message, error } => {
                            &&& claim_message@ == "CLAIM:"@ + withdrawal.withdrawal_id@
                            &&& signature_present(*withdrawal)
                            &&& submission_of(old(self).chains(), *withdrawal, Err::<Submission, ExecutionError>(error))
                        },
                        RelayStep::Submit { claim_message, submission } => {
                            &&& claim_message@ == "CLAIM:"@ + withdrawal.withdrawal_id@
                            &&& signature_present(*withdrawal)
                            &&& submission_of(old(self).chains(), *withdrawal, Ok::<Submission, ExecutionError>(submission))
                        },
                    }
                },
    {
        let now = unix_now();
        let step = self.begin_relay_at(withdrawal, now);
        assert(clock_reading(now));
        step
    }

    /// Takes in that the submission for a withdrawal was confirmed in the
    /// transaction `tx_hash` at the time `now`: the claim on the withdrawal
    /// is taken off, and the execution goes into the ledger.
    pub fn complete_relay_at(&mut self, withdrawal_id: &str, tx_hash: &str, now: i64) -> (receipt: RelayReceipt)
        requires
            old(self).wf(),
        ensures
            final(self).wf(),
            final(self).address() == old(self).address(),
            final(self).chains() == old(self).chains(),
            final(self).stake() == old(self).stake(),
            final(self).claims() == old(self).claims().remove(withdrawal_id@),
            receipt.execution_message@ == "EXECUTED:"@ + withdrawal_id@ + ":"@ + tx_hash@,
            receipt.recorded == !has_execution(old(self).executions(), withdrawal_id@),
            receipt.recorded ==> {
                &&& exists|pos: int|
                    {
                        &&& #[trigger] is_history_point(old(self).executions(), now, pos)
                        &&& final(self).executions() == old(self).executions().insert(
                            pos,
                            new_execution(withdrawal_id@, tx_hash@, now),
                        )
                    }
                &&& final(self).performances() == old(self).performances().push(
                    PerformanceView { withdrawal_id: withdrawal_id@, success: true, error_message: None, timestamp: now },
                )
            },
            !receipt.recorded ==> final(self).executions() == old(self).executions() && final(self).performances()
                == old(self).performances(),
    {
        let execution_message = self.p2p_network.broadcast_withdrawal_execution(withdrawal_id, tx_hash);
        let recorded = self.db.record_withdrawal_execution_at(withdrawal_id, tx_hash, now, now).is_ok();
        RelayReceipt { execution_message, recorded }
    }

    /// Takes in that the submission for a withdrawal was confirmed, by the
    /// clock.
    pub fn complete_relay(&mut self, withdrawal_id: &str, tx_hash: &str) -> (receipt: RelayReceipt)
        requires
            old(self).wf(),
        ensures
            exists|now: i64|
                #![trigger clock_reading(now)]
                {
                    &&& clock_reading(now)
                    &&& final(self).wf()
                    &&& final(self).address() == old(self).address()
                    &&& final(self).chains() == old(self).chains()
                    &&& final(self).stake() == old(self).stake()
                    &&& final(self).claims() == old(self).claims().remove(withdrawal_id@)
                    &&& receipt.execution_message@ == "EXECUTED:"@ + withdrawal_id@ + ":"@ + tx_hash@
                    &&& receipt.recorded == !has_execution(old(self).executions(), withdrawal_id@)
                    &&& receipt.recorded ==> {
                        &&& exists|pos: int|
                            {
                                &&& #[trigger] is_history_point(old(self).executions(), now, pos)
                                &&& final(self).executions() == old(self).executions().insert(
                                    pos,
                                    new_execution(withdrawal_id@, tx_hash@, now),
                                )
                            }
                        &&& final(self).performances() == old(self).performances().push(
                            PerformanceView { withdrawal_id: withdrawal_id@, success: true, error_message: None, timestamp: now },
                        )
                    }
                    &&& !receipt.recorded ==> final(self).executions() == old(self).executions() && final(self).performances()
                        == old(self).performances()
                },
    {
        let now = unix_now();
        let receipt = self.complete_relay_at(withdrawal_id, tx_hash, now);
        assert(clock_reading(now));
        receipt
    }

    /// Takes in that the submission for a withdrawal failed at the time
    /// `now`. The failure goes into the ledger. The claim stays until its
    /// lease ends, and the withdrawal is not given up.
    pub fn relay_failed_at(&mut self, withdrawal_id: &str, error_message: &str, now: i64)
        requires
            old(self).wf(),
        ensures
            final(self).wf(),
            final(self).address() == old(self).address(),
            final(self).chains() == old(self).chains(),
            final(self).stake() == old(self).stake(),
            final(self).claims() == old(self).claims(),
            final(self).executions() == old(self).executions(),
            final(self).performances() == old(self).performances().push(
                PerformanceView {
                    withdrawal_id: withdrawal_id@,
                    success: false,
                    error_message: Some(error_message@),
                    timestamp: now,
                },
            ),
    {
        self.db.record_relay_performance_at(withdrawal_id, false, Some(error_message), now);
    }
}

/// `r` is what the executor prepares for the withdrawal on the configured
/// chains: an error where the withdrawal's chain is not among them, and the
/// submission for the first chain with its id otherwise.
pub open spec fn submission_of(
    chains: Seq<ChainConfig>,
    withdrawal: AuthorizedWithdrawal,
    r: Result<Submission, ExecutionError>,
) -> bool {
    &&& (forall|i: int| 0 <= i < chains.len() ==> (#[trigger] chains[i]).chain_id != withdrawal.target_chain_id) ==> r
        == Err::<Submission, ExecutionError>(ExecutionError::ChainNotConfigured)
    &&& forall|i: int| #[trigger]
        is_first_with_id(chains, withdrawal.target_chain_id, i) ==> prepared(
            chains[i],
            withdrawal.recipient@,
            withdrawal.token@,
            withdrawal.amount,
            withdrawal.nullifier@,
            withdrawal.authorization_signature@,
            r,
        )
}

} // verus!
