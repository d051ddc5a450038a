//! The coordinator engine: the deposit and withdrawal pipelines.
//!
//! The engine owns the store, the token registry and the liquidity manager.
//! The shielded settlement capability is outside it: a pipeline step hands
//! out what the capability is to do next, and the next step takes what the
//! capability answered. One record at a time is between two steps, and a
//! step that does not fit the record in flight changes nothing.
//!
//! Every step is stated twice: as a function on the engine's model, and as
//! the executable method that follows it.
//!
//! A step that changes a pool hands the change out, for whoever owns the
//! engine to write to durable storage. Where that write fails, the change
//! goes back in: `revert_liquidity` puts the pool back, and `undo_deposit`
//! the pool and the deposit.

use vstd::prelude::*;
use vstd::bytes::spec_u64_to_le_bytes;
use vstd::utf8::encode_utf8;
use crate::coordinator::database::{
    deposit_index, deposit_times, deposits_in_order, has_deposit, has_withdrawal, is_insertion_point, stats_of,
    with_authorized, with_processed, with_reopened, withdrawal_index, withdrawal_times, withdrawals_in_order,
    Database, Deposit, DepositView, NullifierRecord, ShieldedNote, Stats, StoreError, Withdrawal, WithdrawalView,
    ZcashState,
};
use crate::coordinator::config::LiquidityConfig;
use crate::coordinator::liquidity_manager::{
    filed_under, order_reverted, pool_after, pools_reverted, rebalance_decision, stamped, LiquidityError,
    LiquidityManager, LiquidityPool, PoolChange, PoolOp, RebalanceDecision, RebalanceReport,
};
use crate::coordinator::token_registry::TokenRegistry;
use crate::hashing::{sha256, spec_sha256};
use crate::hexcode::{hex_encode, spec_hex_encode};
use crate::text::{bytes_eq, str_eq};

verus! {

/// Where the record in flight stands.
#[derive(Debug, Clone, Copy, PartialEq, Eq, Structural)]
pub enum Phase {
    /// A deposit waits for its shielded note.
    CreatingNote,
    /// A withdrawal waits for the verdict on its proof.
    VerifyingProof,
    /// A withdrawal waits for its nullifier to be marked spent.
    MarkingNullifier,
}

/// The record between two steps of a pipeline.
#[derive(Debug)]
pub struct InFlight {
    pub id: String,
    pub phase: Phase,
}

pub struct InFlightView {
    pub id: Seq<char>,
    pub phase: Phase,
}

impl View for InFlight {
    type V = InFlightView;

    open spec fn view(&self) -> InFlightView {
        InFlightView { id: self.id@, phase: self.phase }
    }
}

/// The engine as a mathematical value.
pub struct EngineState {
    pub deposits: Seq<DepositView>,
    pub withdrawals: Seq<WithdrawalView>,
    pub nullifiers: Map<Seq<char>, NullifierRecord>,
    pub pools: Map<(u64, Seq<char>), LiquidityPool>,
    pub in_flight: Option<InFlightView>,
}

/// Why a record was left pending.
#[derive(Debug, Clone, Copy, PartialEq, Eq, Structural)]
pub enum RetryReason {
    TokenNotFound,
    PoolNotFound,
    InsufficientLiquidity,
    /// The capability did not create the note.
    NoteFailed,
    /// The capability gave no verdict on the proof.
    ProofUnavailable,
    /// The capability did not mark the nullifier spent.
    NullifierNotMarked,
}

/// Why a withdrawal was discarded.
#[derive(Debug, Clone, Copy, PartialEq, Eq, Structural)]
pub enum DiscardReason {
    NullifierUsed,
    InvalidProof,
}

/// How the first step of the deposit pipeline ended.
#[derive(Debug, Clone, Copy, PartialEq, Eq, Structural)]
pub enum DepositStepKind {
    /// Another record is in flight.
    Busy,
    /// No such deposit is pending.
    NotPending,
    Retry(RetryReason),
    /// The capability is to create the note.
    CreateNote,
}

/// How the last step of the deposit pipeline ended.
#[derive(Debug, Clone, Copy, PartialEq, Eq, Structural)]
pub enum DepositOutcomeKind {
    /// The deposit is not the record that waits for its note.
    OutOfOrder,
    Retry(RetryReason),
    Processed,
}

/// How a step of the withdrawal pipeline ended.
#[derive(Debug, Clone, Copy, PartialEq, Eq, Structural)]
pub enum WithdrawalStepKind {
    /// Another record is in flight.
    Busy,
    /// No such withdrawal is pending.
    NotPending,
    /// The withdrawal is not the record that waits at this step.
    OutOfOrder,
    Retry(RetryReason),
    Discarded(DiscardReason),
    /// The capability is to verify the proof.
    VerifyProof,
    /// The capability is to mark the nullifier spent.
    MarkNullifierSpent,
    /// The nullifier is spent, but the destination token is not registered:
    /// the withdrawal is left pending and no signature was made.
    Failed,
    Authorized,
}

/// What the capability needs to create the note of a deposit. The deposit id
/// identifies the request: the capability creates one note per id.
#[derive(Debug)]
pub struct NoteRequest {
    pub deposit_id: String,
    pub source_chain_id: u64,
    pub token: String,
    pub amount: u64,
    pub recipient: Vec<u8>,
    pub zcash_address: Vec<u8>,
}

/// What the capability needs to verify the proof of a withdrawal.
#[derive(Debug)]
pub struct ProofRequest {
    pub nullifier: Vec<u8>,
    pub zcash_proof: Vec<u8>,
    pub merkle_root: Vec<u8>,
    pub amount: u64,
}

#[derive(Debug)]
pub enum DepositStep {
    Busy,
    NotPending,
    Retry(RetryReason),
    CreateNote(NoteRequest),
}

#[derive(Debug)]
pub enum DepositOutcome {
    OutOfOrder,
    Retry(RetryReason),
    /// The deposit is processed. The durable store takes the deposit's note
    /// commitment and settlement transaction, and the pool as it is now;
    /// `pool` is what `undo_deposit` takes if the store does not.
    Processed { note_commitment: String, pool: PoolChange },
}

#[derive(Debug)]
pub enum WithdrawalStep {
    Busy,
    NotPending,
    OutOfOrder,
    Retry(RetryReason),
    Discarded(DiscardReason),
    VerifyProof(ProofRequest),
    MarkNullifierSpent(Vec<u8>),
}

#[derive(Debug)]
pub enum WithdrawalOutcome {
    OutOfOrder,
    Retry(RetryReason),
    Failed,
    /// The withdrawal is authorized under `signature`. `release` tells what
    /// became of the destination pool, or why nothing was released.
    Authorized { signature: Vec<u8>, token_address: String, release: Result<PoolChange, LiquidityError> },
}

impl DepositStep {
    pub open spec fn kind(&self) -> DepositStepKind {
        match self {
            DepositStep::Busy => DepositStepKind::Busy,
            DepositStep::NotPending => DepositStepKind::NotPending,
            DepositStep::Retry(reason) => DepositStepKind::Retry(*reason),
            DepositStep::CreateNote(_) => DepositStepKind::CreateNote,
        }
    }
}

impl DepositOutcome {
    pub open spec fn kind(&self) -> DepositOutcomeKind {
        match self {
            DepositOutcome::OutOfOrder => DepositOutcomeKind::OutOfOrder,
            DepositOutcome::Retry(reason) => DepositOutcomeKind::Retry(*reason),
            DepositOutcome::Processed { .. } => DepositOutcomeKind::Processed,
        }
    }
}

impl WithdrawalStep {
    pub open spec fn kind(&self) -> WithdrawalStepKind {
        match self {
            WithdrawalStep::Busy => WithdrawalStepKind::Busy,
            WithdrawalStep::NotPending => WithdrawalStepKind::NotPending,
            WithdrawalStep::OutOfOrder => WithdrawalStepKind::OutOfOrder,
            WithdrawalStep::Retry(reason) => WithdrawalStepKind::Retry(*reason),
            WithdrawalStep::Discarded(reason) => WithdrawalStepKind::Discarded(*reason),
            WithdrawalStep::VerifyProof(_) => WithdrawalStepKind::VerifyProof,
            WithdrawalStep::MarkNullifierSpent(_) => WithdrawalStepKind::MarkNullifierSpent,
        }
    }
}

impl WithdrawalOutcome {
    pub open spec fn kind(&self) -> WithdrawalStepKind {
        match self {
            WithdrawalOutcome::OutOfOrder => WithdrawalStepKind::OutOfOrder,
            WithdrawalOutcome::Retry(reason) => WithdrawalStepKind::Retry(*reason),
            WithdrawalOutcome::Failed => WithdrawalStepKind::Failed,
            WithdrawalOutcome::Authorized { .. } => WithdrawalStepKind::Authorized,
        }
    }
}

/// What a tick of the coordinator's loop is to do besides the pipelines.
#[derive(Debug, Clone, Copy, PartialEq, Eq, Structural)]
pub struct TickPlan {
    /// Every tenth tick is logged.
    pub log_tick: bool,
    /// Every sixtieth tick rebalances liquidity.
    pub rebalance: bool,
    /// Every thirtieth tick updates the metrics.
    pub update_metrics: bool,
}

/// The plan of the tick with the number `tick_count`, counted from one.
pub fn tick_plan(tick_count: u64) -> (plan: TickPlan)
    ensures
        plan.log_tick == (tick_count % 10 == 0),
        plan.rebalance == (tick_count % 60 == 0),
        plan.update_metrics == (tick_count % 30 == 0),
{
    TickPlan { log_tick: tick_count % 10 == 0, rebalance: tick_count % 60 == 0, update_metrics: tick_count % 30 == 0 }
}

// ============ The model ============
/// The deposit with the id `id`. Meaningful where there is one.
pub open spec fn deposit_of(s: EngineState, id: Seq<char>) -> DepositView {
    s.deposits[deposit_index(s.deposits, id)]
}

/// The withdrawal with the id `id`. Meaningful where there is one.
pub open spec fn withdrawal_of(s: EngineState, id: Seq<char>) -> WithdrawalView {
    s.withdrawals[withdrawal_index(s.withdrawals, id)]
}

/// A deposit with the id `id` is stored and not yet processed.
pub open spec fn pending_deposit(s: EngineState, id: Seq<char>) -> bool {
    has_deposit(s.deposits, id) && !deposit_of(s, id).processed
}

/// A withdrawal with the id `id` is stored and not yet authorized.
pub open spec fn pending_withdrawal(s: EngineState, id: Seq<char>) -> bool {
    has_withdrawal(s.withdrawals, id) && !withdrawal_of(s, id).authorized
}

/// The text under which the store files a nullifier: its hexadecimal form.
pub open spec fn nullifier_text(nullifier: Seq<u8>) -> Seq<char> {
    spec_hex_encode(nullifier)
}

/// The nullifier is on record as spent.
pub open spec fn is_spent(s: EngineState, nullifier: Seq<u8>) -> bool {
    s.nullifiers.dom().contains(nullifier_text(nullifier)) && s.nullifiers[nullifier_text(nullifier)].spent
}

/// The key of the pool that a record on `chain_id` in `token` draws on: the
/// chain id with the address, as it was registered, of the representation
/// that stands at the chain address `(chain_id, token)`.
pub open spec fn destination(registry: TokenRegistry, chain_id: u64, token: Seq<char>) -> Option<(u64, Seq<char>)> {
    match registry.spec_token_for_chain(chain_id, token) {
        Some(found) => Some((chain_id, found.address@)),
        None => None,
    }
}

/// Why the deposit cannot go on to its note yet, if it cannot.
pub open spec fn deposit_obstacle(registry: TokenRegistry, s: EngineState, d: DepositView) -> Option<RetryReason> {
    match destination(registry, d.target_chain_id, d.token) {
        None => Some(RetryReason::TokenNotFound),
        Some(key) => if !s.pools.dom().contains(key) {
            Some(RetryReason::PoolNotFound)
        } else if s.pools[key].available < d.amount {
            Some(RetryReason::InsufficientLiquidity)
        } else {
            None
        },
    }
}

/// The message that an authorization signs: the withdrawal id, the
/// recipient and the token address as UTF-8, the amount as eight bytes with
/// the least significant first, and the nullifier, one after the other.
pub open spec fn withdrawal_message(
    withdrawal_id: Seq<char>,
    recipient: Seq<char>,
    token_address: Seq<char>,
    amount: u64,
    nullifier: Seq<u8>,
) -> Seq<u8> {
    encode_utf8(withdrawal_id) + encode_utf8(recipient) + encode_utf8(token_address) + spec_u64_to_le_bytes(amount)
        + nullifier
}

/// The authorization signature of a withdrawal: the SHA-256 digest of its
/// message.
pub open spec fn withdrawal_signature(
    withdrawal_id: Seq<char>,
    recipient: Seq<char>,
    token_address: Seq<char>,
    amount: u64,
    nullifier: Seq<u8>,
) -> Seq<u8> {
    spec_sha256(withdrawal_message(withdrawal_id, recipient, token_address, amount, nullifier))
}

/// Where a record created at `at` goes among records with these creation
/// times: behind every record that is not younger.
pub open spec fn insertion_point(times: Seq<i64>, at: i64) -> int {
    choose|pos: int| is_insertion_point(times, at, pos)
}

/// Storing a deposit: a deposit whose id is stored already changes nothing.
pub open spec fn store_deposit_spec(s: EngineState, d: DepositView) -> EngineState {
    if has_deposit(s.deposits, d.deposit_id) {
        s
    } else {
        EngineState {
            deposits: s.deposits.insert(insertion_point(deposit_times(s.deposits), d.created_at), d),
            ..s
        }
    }
}

/// Storing a withdrawal: a withdrawal whose id is stored already changes
/// nothing.
pub open spec fn store_withdrawal_spec(s: EngineState, w: WithdrawalView) -> EngineState {
    if has_withdrawal(s.withdrawals, w.withdrawal_id) {
        s
    } else {
        EngineState {
            withdrawals: s.withdrawals.insert(insertion_point(withdrawal_times(s.withdrawals), w.created_at), w),
            ..s
        }
    }
}

/// The first step of the deposit pipeline.
pub open spec fn begin_deposit_spec(registry: TokenRegistry, s: EngineState, id: Seq<char>) -> (
    EngineState,
    DepositStepKind,
) {
    if s.in_flight is Some {
        (s, DepositStepKind::Busy)
    } else if !pending_deposit(s, id) {
        (s, DepositStepKind::NotPending)
    } else {
        match deposit_obstacle(registry, s, deposit_of(s, id)) {
            Some(reason) => (s, DepositStepKind::Retry(reason)),
            None => (
                EngineState { in_flight: Some(InFlightView { id, phase: Phase::CreatingNote }), ..s },
                DepositStepKind::CreateNote,
            ),
        }
    }
}

/// The last step of the deposit pipeline. `note` is the note's commitment
/// and the settlement transaction, or nothing if the capability failed.
pub open spec fn complete_deposit_spec(
    registry: TokenRegistry,
    s: EngineState,
    id: Seq<char>,
    note: Option<(Seq<u8>, Seq<char>)>,
) -> (EngineState, DepositOutcomeKind) {
    if s.in_flight != Some(InFlightView { id, phase: Phase::CreatingNote }) {
        (s, DepositOutcomeKind::OutOfOrder)
    } else {
        match note {
            None => (EngineState { in_flight: None, ..s }, DepositOutcomeKind::Retry(RetryReason::NoteFailed)),
            Some((commitment, txid)) => {
                let d = deposit_of(s, id);
                let key = destination(registry, d.target_chain_id, d.token)->0;
                (
                    EngineState {
                        deposits: with_processed(s.deposits, id, spec_hex_encode(commitment), txid),
                        pools: s.pools.insert(key, pool_after(s.pools[key], PoolOp::Lock(d.amount))),
                        in_flight: None,
                        ..s
                    },
                    DepositOutcomeKind::Processed,
                )
            },
        }
    }
}

/// The first step of the withdrawal pipeline.
pub open spec fn begin_withdrawal_spec(s: EngineState, id: Seq<char>) -> (EngineState, WithdrawalStepKind) {
    if s.in_flight is Some {
        (s, WithdrawalStepKind::Busy)
    } else if !pending_withdrawal(s, id) {
        (s, WithdrawalStepKind::NotPending)
    } else if is_spent(s, withdrawal_of(s, id).nullifier) {
        (
            EngineState { withdrawals: s.withdrawals.remove(withdrawal_index(s.withdrawals, id)), ..s },
            WithdrawalStepKind::Discarded(DiscardReason::NullifierUsed),
        )
    } else {
        (
            EngineState { in_flight: Some(InFlightView { id, phase: Phase::VerifyingProof }), ..s },
            WithdrawalStepKind::VerifyProof,
        )
    }
}

/// The second step of the withdrawal pipeline. `verdict` is the
/// capability's verdict on the proof, or nothing if it gave none.
pub open spec fn proof_checked_spec(s: EngineState, id: Seq<char>, verdict: Option<bool>) -> (
    EngineState,
    WithdrawalStepKind,
) {
    if s.in_flight != Some(InFlightView { id, phase: Phase::VerifyingProof }) {
        (s, WithdrawalStepKind::OutOfOrder)
    } else {
        match verdict {
            None => (
                EngineState { in_flight: None, ..s },
                WithdrawalStepKind::Retry(RetryReason::ProofUnavailable),
            ),
            Some(false) => (
                EngineState {
                    withdrawals: s.withdrawals.remove(withdrawal_index(s.withdrawals, id)),
                    in_flight: None,
                    ..s
                },
                WithdrawalStepKind::Discarded(DiscardReason::InvalidProof),
            ),
            Some(true) => (
                EngineState { in_flight: Some(InFlightView { id, phase: Phase::MarkingNullifier }), ..s },
                WithdrawalStepKind::MarkNullifierSpent,
            ),
        }
    }
}

/// The last step of the withdrawal pipeline. `marked` says whether the
/// capability marked the nullifier spent; `now` is the time of the step.
pub open spec fn nullifier_marked_spec(
    registry: TokenRegistry,
    s: EngineState,
    id: Seq<char>,
    marked: bool,
    now: i64,
) -> (EngineState, WithdrawalStepKind) {
    if s.in_flight != Some(InFlightView { id, phase: Phase::MarkingNullifier }) {
        (s, WithdrawalStepKind::OutOfOrder)
    } else if !marked {
        (EngineState { in_flight: None, ..s }, WithdrawalStepKind::Retry(RetryReason::NullifierNotMarked))
    } else {
        let w = withdrawal_of(s, id);
        let nullifiers = s.nullifiers.insert(nullifier_text(w.nullifier), NullifierRecord { spent: true, spent_at: now });
        match registry.spec_token_for_chain(w.target_chain_id, w.token) {
            None => (EngineState { nullifiers, in_flight: None, ..s }, WithdrawalStepKind::Failed),
            Some(found) => {
                let key = (w.target_chain_id, found.address@);
                let signature = withdrawal_signature(w.withdrawal_id, w.recipient, found.address@, w.amount, w.nullifier);
                (
                    EngineState {
                        withdrawals: with_authorized(s.withdrawals, id, signature),
                        nullifiers,
                        pools: if s.pools.dom().contains(key) {
                            s.pools.insert(key, pool_after(s.pools[key], PoolOp::Release(w.amount)))
                        } else {
                            s.pools
                        },
                        in_flight: None,
                        ..s
                    },
                    WithdrawalStepKind::Authorized,
                )
            },
        }
    }
}

/// Nullifier exclusivity: every authorized withdrawal's nullifier is on
/// record as spent, and no two authorized withdrawals share a nullifier.
pub open spec fn nullifiers_exclusive(s: EngineState) -> bool {
    &&& forall|i: int|
        0 <= i < s.withdrawals.len() && (#[trigger] s.withdrawals[i]).authorized ==> is_spent(
            s,
            s.withdrawals[i].nullifier,
        )
    &&& forall|i: int, j: int|
        0 <= i < j < s.withdrawals.len() && (#[trigger] s.withdrawals[i]).authorized && (
        #[trigger] s.withdrawals[j]).authorized ==> s.withdrawals[i].nullifier != s.withdrawals[j].nullifier
}

/// The record in flight can take its next step: a deposit is pending and
/// nothing stands in the way of its note; a withdrawal is pending and its
/// nullifier is not on record as spent.
pub open spec fn in_flight_ready(registry: TokenRegistry, s: EngineState) -> bool {
    match s.in_flight {
        None => true,
        Some(flight) => match flight.phase {
            Phase::CreatingNote => pending_deposit(s, flight.id) && deposit_obstacle(
                registry,
                s,
                deposit_of(s, flight.id),
            ) is None,
            _ => pending_withdrawal(s, flight.id) && !is_spent(s, withdrawal_of(s, flight.id).nullifier),
        },
    }
}

/// What holds of the engine between any two steps.
pub open spec fn engine_ok(registry: TokenRegistry, s: EngineState) -> bool {
    &&& deposits_in_order(s.deposits)
    &&& withdrawals_in_order(s.withdrawals)
    &&& nullifiers_exclusive(s)
    &&& forall|key: (u64, Seq<char>)| #[trigger] s.pools.dom().contains(key) ==> filed_under(key, s.pools[key])
    &&& in_flight_ready(registry, s)
}

// ============ Facts about the model ============
/// In a list without double ids, a deposit is found at its own place.
pub proof fn lemma_deposit_index(deposits: Seq<DepositView>, i: int)
    requires
        deposits_in_order(deposits),
        0 <= i < deposits.len(),
    ensures
        has_deposit(deposits, deposits[i].deposit_id),
        deposit_index(deposits, deposits[i].deposit_id) == i,
{
    let k = deposit_index(deposits, deposits[i].deposit_id);
    if k < i {
        assert(deposits[k].deposit_id != deposits[i].deposit_id);
    }
    if i < k {
        assert(deposits[i].deposit_id != deposits[k].deposit_id);
    }
}

/// In a list without double ids, a withdrawal is found at its own place.
pub proof fn lemma_withdrawal_index(withdrawals: Seq<WithdrawalView>, i: int)
    requires
        withdrawals_in_order(withdrawals),
        0 <= i < withdrawals.len(),
    ensures
        has_withdrawal(withdrawals, withdrawals[i].withdrawal_id),
        withdrawal_index(withdrawals, withdrawals[i].withdrawal_id) == i,
{
    let k = withdrawal_index(withdrawals, withdrawals[i].withdrawal_id);
    if k < i {
        assert(withdrawals[k].withdrawal_id != withdrawals[i].withdrawal_id);
    }
    if i < k {
        assert(withdrawals[i].withdrawal_id != withdrawals[k].withdrawal_id);
    }
}

/// There is one insertion point at most.
pub proof fn lemma_insertion_point(times: Seq<i64>, at: i64, pos: int)
    requires
        is_insertion_point(times, at, pos),
    ensures
        insertion_point(times, at) == pos,
{
    let other = insertion_point(times, at);
    assert(is_insertion_point(times, at, other));
    if other < pos {
        assert(times[other] <= at);
        assert(times[other] > at);
    }
    if pos < other {
        assert(times[pos] <= at);
        assert(times[pos] > at);
    }
}

/// A new deposit leaves every other deposit where a search by id finds it.
pub proof fn lemma_insert_deposit(deposits: Seq<DepositView>, pos: int, d: DepositView, id: Seq<char>)
    requires
        deposits_in_order(deposits),
        deposits_in_order(deposits.insert(pos, d)),
        0 <= pos <= deposits.len(),
        id != d.deposit_id,
    ensures
        has_deposit(deposits.insert(pos, d), id) == has_deposit(deposits, id),
        has_deposit(deposits, id) ==> deposits.insert(pos, d)[deposit_index(deposits.insert(pos, d), id)]
            == deposits[deposit_index(deposits, id)],
{
    let after = deposits.insert(pos, d);
    if has_deposit(deposits, id) {
        let i = deposit_index(deposits, id);
        let k = if i < pos { i } else { i + 1 };
        assert(after[k] == deposits[i]);
        lemma_deposit_index(after, k);
    }
    if has_deposit(after, id) {
        let k = deposit_index(after, id);
        let i = if k < pos { k } else { k - 1 };
        assert(deposits[i] == after[k]);
    }
}

/// A new withdrawal leaves every other withdrawal where a search by id finds it.
pub proof fn lemma_insert_withdrawal(withdrawals: Seq<WithdrawalView>, pos: int, w: WithdrawalView, id: Seq<char>)
    requires
        withdrawals_in_order(withdrawals),
        withdrawals_in_order(withdrawals.insert(pos, w)),
        0 <= pos <= withdrawals.len(),
        id != w.withdrawal_id,
    ensures
        has_withdrawal(withdrawals.insert(pos, w), id) == has_withdrawal(withdrawals, id),
        has_withdrawal(withdrawals, id) ==> withdrawals.insert(pos, w)[withdrawal_index(
            withdrawals.insert(pos, w),
            id,
        )] == withdrawals[withdrawal_index(withdrawals, id)],
{
    let after = withdrawals.insert(pos, w);
    if has_withdrawal(withdrawals, id) {
        let i = withdrawal_index(withdrawals, id);
        let k = if i < pos { i } else { i + 1 };
        assert(after[k] == withdrawals[i]);
        lemma_withdrawal_index(after, k);
    }
    if has_withdrawal(after, id) {
        let k = withdrawal_index(after, id);
        let i = if k < pos { k } else { k - 1 };
        assert(withdrawals[i] == after[k]);
    }
}

// ============ The engine ============
#[derive(Debug, Clone, Copy, PartialEq, Eq, Structural)]
pub enum EngineError {
    /// The store holds an authorized withdrawal whose nullifier is not on
    /// record as spent, or two authorized withdrawals with one nullifier.
    InconsistentStore,
}

/// The engine. Its view holds what the pipelines read and change: the
/// records, the nullifiers, the pools and the record in flight. What the
/// pipelines leave alone is told apart: `registry`, `shielded_notes`,
/// `zcash_state`, `liquidity_settings` and `pool_order`, and every method
/// says what becomes of each.
pub struct Coordinator {
    db: Database,
    token_registry: TokenRegistry,
    liquidity_manager: LiquidityManager,
    in_flight: Option<InFlight>,
}

impl View for Coordinator {
    type V = EngineState;

    closed spec fn view(&self) -> EngineState {
        EngineState {
            deposits: self.db.deposits(),
            withdrawals: self.db.withdrawals(),
            nullifiers: self.db.nullifiers(),
            pools: self.liquidity_manager.pools(),
            in_flight: match self.in_flight {
                Some(flight) => Some(flight@),
                None => None,
            },
        }
    }
}

/// The engine's model over a store and a liquidity manager, with nothing in
/// flight.
pub open spec fn idle_state(db: Database, manager: LiquidityManager) -> EngineState {
    EngineState {
        deposits: db.deposits(),
        withdrawals: db.withdrawals(),
        nullifiers: db.nullifiers(),
        pools: manager.pools(),
        in_flight: None,
    }
}

impl Coordinator {
    /// The token registry, which never changes.
    pub closed spec fn registry(&self) -> TokenRegistry {
        self.token_registry
    }

    /// The last state of the settlement chain that was taken down, if any
    /// was.
    pub closed spec fn zcash_state(&self) -> Option<ZcashState> {
        self.db.zcash_state()
    }

    /// The shielded notes on file in the store, by their commitment. Only
    /// `store_shielded_note` files one; no step of a pipeline does.
    pub closed spec fn shielded_notes(&self) -> Map<Seq<char>, ShieldedNote> {
        self.db.shielded_notes()
    }

    /// The liquidity settings, which never change.
    pub closed spec fn liquidity_settings(&self) -> LiquidityConfig {
        self.liquidity_manager.settings()
    }

    /// The pools' keys in the order in which the pools were made.
    pub closed spec fn pool_order(&self) -> Seq<(u64, Seq<char>)> {
        self.liquidity_manager.pool_order()
    }

    pub closed spec fn parts_wf(&self) -> bool {
        &&& self.db.wf()
        &&& self.token_registry.wf()
        &&& self.liquidity_manager.wf()
    }

    pub open spec fn wf(&self) -> bool {
        &&& self.parts_wf()
        &&& engine_ok(self.registry(), self@)
    }

    /// Takes over a store, a registry and a liquidity manager. Refuses a
    /// store that breaks nullifier exclusivity.
    pub fn new(db: Database, token_registry: TokenRegistry, liquidity_manager: LiquidityManager) -> (r: Result<
        Coordinator,
        EngineError,
    >)
        requires
            db.wf(),
            token_registry.wf(),
            liquidity_manager.wf(),
        ensures
            match r {
                Ok(engine) => {
                    &&& nullifiers_exclusive(idle_state(db, liquidity_manager))
                    &&& engine.wf()
                    &&& engine@ == idle_state(db, liquidity_manager)
                    &&& engine.registry() == token_registry
                    &&& engine.liquidity_settings() == liquidity_manager.settings()
                    &&& engine.pool_order() == liquidity_manager.pool_order()
                    &&& engine.zcash_state() == db.zcash_state()
                    &&& engine.shielded_notes() == db.shielded_notes()
                },
                Err(EngineError::InconsistentStore) => !nullifiers_exclusive(idle_state(db, liquidity_manager)),
            },
    {
        let ghost s = idle_state(db, liquidity_manager);
        let n = db.withdrawal_count();
        let mut i: usize = 0;
        while i < n
            invariant
                db.wf(),
                n == db.withdrawals().len(),
                s == idle_state(db, liquidity_manager),
                i <= n,
                forall|a: int| 0 <= a < i && (#[trigger] s.withdrawals[a]).authorized ==> is_spent(s, s.withdrawals[a].nullifier),
                forall|a: int, b: int|
                    0 <= a < i && a < b < n && (#[trigger] s.withdrawals[a]).authorized && (
                    #[trigger] s.withdrawals[b]).authorized ==> s.withdrawals[a].nullifier
                        != s.withdrawals[b].nullifier,
            decreases n - i,
        {
            let w = db.withdrawal_at(i);
            if w.authorized {
                let text = hex_encode(w.nullifier.as_slice());
                if !db.is_nullifier_spent(text.as_str()) {
                    assert(!is_spent(s, s.withdrawals[i as int].nullifier));
                    return Err(EngineError::InconsistentStore);
                }
                let mut j: usize = i + 1;
                while j < n
                    invariant
                        db.wf(),
                        n == db.withdrawals().len(),
                        s == idle_state(db, liquidity_manager),
                        i < j <= n,
                        w@ == s.withdrawals[i as int],
                        w.authorized,
                        forall|b: int|
                            i < b < j && (#[trigger] s.withdrawals[b]).authorized ==> s.withdrawals[i as int].nullifier
                                != s.withdrawals[b].nullifier,
                    decreases n - j,
                {
                    let other = db.withdrawal_at(j);
                    if other.authorized && bytes_eq(w.nullifier.as_slice(), other.nullifier.as_slice()) {
                        assert(s.withdrawals[i as int].authorized && s.withdrawals[j as int].authorized
                            && s.withdrawals[i as int].nullifier == s.withdrawals[j as int].nullifier);
                        return Err(EngineError::InconsistentStore);
                    }
                    j += 1;
                }
            }
            i += 1;
        }
        proof {
            liquidity_manager.lemma_pools();
        }
        Ok(Coordinator { db, token_registry, liquidity_manager, in_flight: None })
    }

    /// The store.
    pub fn db(&self) -> (db: &Database)
        requires
            self.wf(),
        ensures
            db.wf(),
            db.deposits() == self@.deposits,
            db.withdrawals() == self@.withdrawals,
            db.nullifiers() == self@.nullifiers,
            db.zcash_state() == self.zcash_state(),
            db.shielded_notes() == self.shielded_notes(),
    {
        &self.db
    }

    /// The token registry.
    pub fn token_registry(&self) -> (registry: &TokenRegistry)
        requires
            self.wf(),
        ensures
            registry.wf(),
            *registry == self.registry(),
    {
        &self.token_registry
    }

    /// The liquidity manager.
    pub fn liquidity_manager(&self) -> (manager: &LiquidityManager)
        requires
            self.wf(),
        ensures
            manager.wf(),
            manager.pools() == self@.pools,
    {
        &self.liquidity_manager
    }

    /// The record in flight, if there is one.
    pub fn in_flight(&self) -> (flight: Option<&InFlight>)
        ensures
            match flight {
                Some(f) => self@.in_flight == Some(f@),
                None => self@.in_flight is None,
            },
    {
        self.in_flight.as_ref()
    }

    /// Stores a newly notified deposit. Says whether it was new: a deposit
    /// whose id is stored already changes nothing.
    pub fn store_deposit(&mut self, deposit: Deposit) -> (stored: bool)
        requires
            old(self).wf(),
        ensures
            final(self).wf(),
            final(self).registry() == old(self).registry(),
            final(self).shielded_notes() == old(self).shielded_notes(),
            final(self).zcash_state() == old(self).zcash_state(),
            final(self).liquidity_settings() == old(self).liquidity_settings(),
            final(self).pool_order() == old(self).pool_order(),
            final(self)@ == store_deposit_spec(old(self)@, deposit@),
            stored == !has_deposit(old(self)@.deposits, deposit@.deposit_id),
    {
        let ghost before = self@;
        let ghost view = deposit@;
        let r = self.db.store_deposit(deposit);
        match r {
            Err(_) => false,
            Ok(()) => {
                proof {
                    let pos = choose|pos: int| #[trigger]
                        is_insertion_point(deposit_times(before.deposits), view.created_at, pos) && self@.deposits
                            == before.deposits.insert(pos, view);
                    lemma_insertion_point(deposit_times(before.deposits), view.created_at, pos);
                    if before.in_flight is Some && before.in_flight->0.phase == Phase::CreatingNote {
                        lemma_insert_deposit(before.deposits, pos, view, before.in_flight->0.id);
                    }
                }
                true
            },
        }
    }

    /// Stores a newly notified withdrawal. Says whether it was new: a
    /// withdrawal whose id is stored already changes nothing. A withdrawal
    /// is stored unauthorized and without a signature, whatever it says.
    pub fn store_withdrawal(&mut self, withdrawal: Withdrawal) -> (stored: bool)
        requires
            old(self).wf(),
        ensures
            final(self).wf(),
            final(self).registry() == old(self).registry(),
            final(self).shielded_notes() == old(self).shielded_notes(),
            final(self).zcash_state() == old(self).zcash_state(),
            final(self).liquidity_settings() == old(self).liquidity_settings(),
            final(self).pool_order() == old(self).pool_order(),
            final(self)@ == store_withdrawal_spec(
                old(self)@,
                WithdrawalView { authorized: false, auth_signature: None, ..withdrawal@ },
            ),
            stored == !has_withdrawal(old(self)@.withdrawals, withdrawal@.withdrawal_id),
    {
        let ghost before = self@;
        let mut withdrawal = withdrawal;
        withdrawal.authorized = false;
        withdrawal.auth_signature = None;
        let ghost view = withdrawal@;
        let r = self.db.store_withdrawal(withdrawal);
        match r {
            Err(_) => false,
            Ok(()) => {
                proof {
                    let pos = choose|pos: int| #[trigger]
                        is_insertion_point(withdrawal_times(before.withdrawals), view.created_at, pos)
                            && self@.withdrawals == before.withdrawals.insert(pos, view);
                    lemma_insertion_point(withdrawal_times(before.withdrawals), view.created_at, pos);
                    let after = self@.withdrawals;
                    if before.in_flight is Some && before.in_flight->0.phase != Phase::CreatingNote {
                        lemma_insert_withdrawal(before.withdrawals, pos, view, before.in_flight->0.id);
                    }
                    assert forall|i: int| 0 <= i < after.len() && (#[trigger] after[i]).authorized implies is_spent(
                        self@,
                        after[i].nullifier,
                    ) by {
                        let oi = if i < pos { i } else { i - 1 };
                        assert(after[i] == before.withdrawals[oi]);
                    }
                    assert forall|i: int, j: int|
                        0 <= i < j < after.len() && (#[trigger] after[i]).authorized && (
                        #[trigger] after[j]).authorized implies after[i].nullifier != after[j].nullifier by {
                        let oi = if i < pos { i } else { i - 1 };
                        let oj = if j < pos { j } else { j - 1 };
                        assert(after[i] == before.withdrawals[oi]);
                        assert(after[j] == before.withdrawals[oj]);
                    }
                }
                true
            },
        }
    }

    /// Adds liquidity to a pool, unless a record is in flight: then nothing
    /// is done and nothing is returned.
    pub fn add_liquidity(&mut self, chain_id: u64, token: &str, amount: u64) -> (r: Option<
        Result<PoolChange, LiquidityError>,
    >)
        requires
            old(self).wf(),
        ensures
            final(self).wf(),
            final(self).registry() == old(self).registry(),
            final(self).shielded_notes() == old(self).shielded_notes(),
            final(self).zcash_state() == old(self).zcash_state(),
            final(self).liquidity_settings() == old(self).liquidity_settings(),
            final(self)@.deposits == old(self)@.deposits,
            final(self)@.withdrawals == old(self)@.withdrawals,
            final(self)@.nullifiers == old(self)@.nullifiers,
            final(self)@.in_flight == old(self)@.in_flight,
            r is None <==> old(self)@.in_flight is Some,
            match r {
                None => final(self)@ == old(self)@ && final(self).pool_order() == old(self).pool_order(),
                Some(Ok(change)) => {
                    let key = (chain_id, token@);
                    &&& change.key() == key
                    &&& change.restorable()
                    &&& final(self)@.pools == old(self)@.pools.insert(key, change.after)
                    &&& if old(self)@.pools.dom().contains(key) {
                        &&& change.before == Some(old(self)@.pools[key])
                        &&& change.after == pool_after(old(self)@.pools[key], PoolOp::Add(amount))
                        &&& old(self)@.pools[key].total() + amount <= u64::MAX
                        &&& final(self).pool_order() == old(self).pool_order()
                    } else {
                        &&& change.before is None
                        &&& change.after.chain_id == chain_id
                        &&& change.after.token@ == token@
                        &&& change.after.available == amount
                        &&& change.after.locked == 0
                        &&& change.after.target == 0
                        &&& change.after.last_rebalance == 0
                        &&& final(self).pool_order() == old(self).pool_order().push(key)
                    }
                },
                Some(Err(error)) => {
                    &&& error == LiquidityError::Overflow
                    &&& old(self)@.pools.dom().contains((chain_id, token@))
                    &&& old(self)@.pools[(chain_id, token@)].total() + amount > u64::MAX
                    &&& final(self)@ == old(self)@
                    &&& final(self).pool_order() == old(self).pool_order()
                },
            },
    {
        if self.in_flight.is_some() {
            return None;
        }
        let r = self.liquidity_manager.add_liquidity(chain_id, token, amount);
        proof {
            self.liquidity_manager.lemma_pools();
            let after = self@;
            assert forall|i: int|
                0 <= i < after.withdrawals.len() && (#[trigger] after.withdrawals[i]).authorized implies is_spent(
                after,
                after.withdrawals[i].nullifier,
            ) by {
                assert(is_spent(old(self)@, old(self)@.withdrawals[i].nullifier));
            }
        }
        Some(r)
    }

    /// Removes liquidity from a pool, unless a record is in flight: then
    /// nothing is done and nothing is returned.
    pub fn remove_liquidity(&mut self, chain_id: u64, token: &str, amount: u64) -> (r: Option<
        Result<PoolChange, LiquidityError>,
    >)
        requires
            old(self).wf(),
        ensures
            final(self).wf(),
            final(self).registry() == old(self).registry(),
            final(self).shielded_notes() == old(self).shielded_notes(),
            final(self).zcash_state() == old(self).zcash_state(),
            final(self).liquidity_settings() == old(self).liquidity_settings(),
            final(self).pool_order() == old(self).pool_order(),
            final(self)@.deposits == old(self)@.deposits,
            final(self)@.withdrawals == old(self)@.withdrawals,
            final(self)@.nullifiers == old(self)@.nullifiers,
            final(self)@.in_flight == old(self)@.in_flight,
            r is None <==> old(self)@.in_flight is Some,
            match r {
                None => final(self)@ == old(self)@,
                Some(Ok(change)) => {
                    let key = (chain_id, token@);
                    &&& old(self)@.pools.dom().contains(key)
                    &&& old(self)@.pools[key].available >= amount
                    &&& change.before == Some(old(self)@.pools[key])
                    &&& change.after == pool_after(old(self)@.pools[key], PoolOp::Remove(amount))
                    &&& change.key() == key
                    &&& change.restorable()
                    &&& final(self)@.pools == old(self)@.pools.insert(key, change.after)
                },
                Some(Err(LiquidityError::PoolNotFound)) => !old(self)@.pools.dom().contains((chain_id, token@))
                    && final(self)@ == old(self)@,
                Some(Err(LiquidityError::InsufficientLiquidity)) => old(self)@.pools.dom().contains(
                    (chain_id, token@),
                ) && old(self)@.pools[(chain_id, token@)].available < amount && final(self)@ == old(self)@,
                Some(Err(_)) => false,
            },
    {
        if self.in_flight.is_some() {
            return None;
        }
        let r = self.liquidity_manager.remove_liquidity(chain_id, token, amount);
        proof {
            self.liquidity_manager.lemma_pools();
            let after = self@;
            assert forall|i: int|
                0 <= i < after.withdrawals.len() && (#[trigger] after.withdrawals[i]).authorized implies is_spent(
                after,
                after.withdrawals[i].nullifier,
            ) by {
                assert(is_spent(old(self)@, old(self)@.withdrawals[i].nullifier));
            }
        }
        Some(r)
    }

    /// Undoes a change of a pool that the durable store did not take: the
    /// pool is put back as it was before the change, or taken away if the
    /// change had made it. The records stay as they are.
    ///
    /// Nothing is done, and `false` returned, while a record is in flight,
    /// or where the pool to put back is not that of the changed pool's chain
    /// and token, or holds more than fits.
    pub fn revert_liquidity(&mut self, change: PoolChange) -> (done: bool)
        requires
            old(self).wf(),
        ensures
            final(self).wf(),
            final(self).registry() == old(self).registry(),
            final(self).shielded_notes() == old(self).shielded_notes(),
            final(self).zcash_state() == old(self).zcash_state(),
            final(self).liquidity_settings() == old(self).liquidity_settings(),
            final(self)@.deposits == old(self)@.deposits,
            final(self)@.withdrawals == old(self)@.withdrawals,
            final(self)@.nullifiers == old(self)@.nullifiers,
            final(self)@.in_flight == old(self)@.in_flight,
            done == (old(self)@.in_flight is None && change.restorable()),
            final(self)@.pools == if done {
                pools_reverted(old(self)@.pools, change)
            } else {
                old(self)@.pools
            },
            final(self).pool_order() == if done {
                order_reverted(old(self).pool_order(), change)
            } else {
                old(self).pool_order()
            },
    {
        if self.in_flight.is_some() || !change.is_restorable() {
            return false;
        }
        self.liquidity_manager.revert(change);
        proof {
            self.liquidity_manager.lemma_pools();
            let after = self@;
            assert forall|i: int|
                0 <= i < after.withdrawals.len() && (#[trigger] after.withdrawals[i]).authorized implies is_spent(
                after,
                after.withdrawals[i].nullifier,
            ) by {
                assert(is_spent(old(self)@, old(self)@.withdrawals[i].nullifier));
            }
        }
        true
    }

    /// Undoes the completion of a deposit that the durable store did not
    /// take, so that the deposit is taken up again as a whole: the deposit is
    /// pending again, without note and settlement transaction, and the pool
    /// that was locked for it is put back as `change` says it was. The other
    /// records stay as they are.
    ///
    /// Nothing is done, and `false` returned, while a record is in flight,
    /// where no deposit with this id is stored or it is not processed, or
    /// where the change cannot be undone.
    pub fn undo_deposit(&mut self, deposit_id: &str, change: PoolChange) -> (done: bool)
        requires
            old(self).wf(),
        ensures
            final(self).wf(),
            final(self).registry() == old(self).registry(),
            final(self).shielded_notes() == old(self).shielded_notes(),
            final(self).zcash_state() == old(self).zcash_state(),
            final(self).liquidity_settings() == old(self).liquidity_settings(),
            final(self)@.withdrawals == old(self)@.withdrawals,
            final(self)@.nullifiers == old(self)@.nullifiers,
            final(self)@.in_flight == old(self)@.in_flight,
            done == {
                &&& old(self)@.in_flight is None
                &&& change.restorable()
                &&& has_deposit(old(self)@.deposits, deposit_id@)
                &&& deposit_of(old(self)@, deposit_id@).processed
            },
            final(self)@.deposits == if done {
                with_reopened(old(self)@.deposits, deposit_id@)
            } else {
                old(self)@.deposits
            },
            final(self)@.pools == if done {
                pools_reverted(old(self)@.pools, change)
            } else {
                old(self)@.pools
            },
            final(self).pool_order() == if done {
                order_reverted(old(self).pool_order(), change)
            } else {
                old(self).pool_order()
            },
            done ==> pending_deposit(final(self)@, deposit_id@),
    {
        if self.in_flight.is_some() || !change.is_restorable() {
            return false;
        }
        match self.db.get_deposit(deposit_id) {
            None => {
                return false;
            },
            Some(deposit) => {
                if !deposit.processed {
                    return false;
                }
            },
        }
        let ghost before = self@;
        let _ = self.db.reopen_deposit(deposit_id);
        self.liquidity_manager.revert(change);
        proof {
            self.liquidity_manager.lemma_pools();
            let after = self@;
            let idx = deposit_index(before.deposits, deposit_id@);
            assert(after.deposits[idx].deposit_id == deposit_id@);
            lemma_deposit_index(after.deposits, idx);
            assert forall|i: int|
                0 <= i < after.withdrawals.len() && (#[trigger] after.withdrawals[i]).authorized implies is_spent(
                after,
                after.withdrawals[i].nullifier,
            ) by {
                assert(is_spent(before, before.withdrawals[i].nullifier));
            }
        }
        true
    }

    /// Takes down the state of the settlement chain as the node gave it at
    /// the time `now`, in the place of what was taken down before: the
    /// height of the chain, its best block, and how far the node has
    /// verified it, in parts per million. The pipelines' records stay as
    /// they are.
    pub fn update_zcash_state(&mut self, block_height: u32, best_block_hash: &str, sync_progress_ppm: u32, now: i64)
        requires
            old(self).wf(),
        ensures
            final(self).wf(),
            final(self).registry() == old(self).registry(),
            final(self).shielded_notes() == old(self).shielded_notes(),
            final(self).liquidity_settings() == old(self).liquidity_settings(),
            final(self).pool_order() == old(self).pool_order(),
            final(self)@ == old(self)@,
            final(self).zcash_state() matches Some(state) && {
                &&& state.block_height == block_height
                &&& state.best_block_hash@ == best_block_hash@
                &&& state.sync_progress_ppm == sync_progress_ppm
                &&& state.updated_at == now
            },
    {
        self.db.update_zcash_state(block_height, best_block_hash, sync_progress_ppm, now);
    }

    /// Files the shielded note of a processed deposit under its commitment,
    /// as made at the time `now`. A commitment that is on file already is
    /// refused, and its note stays as it is. The pipelines' records and the
    /// pools stay as they are.
    pub fn store_shielded_note(
        &mut self,
        commitment: &str,
        txid: &str,
        amount: u64,
        source_chain_id: u64,
        token: &str,
        now: i64,
    ) -> (r: Result<(), StoreError>)
        requires
            old(self).wf(),
        ensures
            final(self).wf(),
            final(self).registry() == old(self).registry(),
            final(self).zcash_state() == old(self).zcash_state(),
            final(self).liquidity_settings() == old(self).liquidity_settings(),
            final(self).pool_order() == old(self).pool_order(),
            final(self)@ == old(self)@,
            match r {
                Ok(()) => {
                    &&& !old(self).shielded_notes().dom().contains(commitment@)
                    &&& final(self).shielded_notes().dom() == old(self).shielded_notes().dom().insert(commitment@)
                    &&& forall|other: Seq<char>|
                        old(self).shielded_notes().dom().contains(other) ==> #[trigger] final(self).shielded_notes()[other]
                            == old(self).shielded_notes()[other]
                    &&& final(self).shielded_notes()[commitment@].txid@ == txid@
                    &&& final(self).shielded_notes()[commitment@].amount == amount
                    &&& final(self).shielded_notes()[commitment@].source_chain_id == source_chain_id
                    &&& final(self).shielded_notes()[commitment@].token@ == token@
                    &&& final(self).shielded_notes()[commitment@].created_at == now
                },
                Err(StoreError::DuplicateId) => {
                    &&& old(self).shielded_notes().dom().contains(commitment@)
                    &&& final(self).shielded_notes() == old(self).shielded_notes()
                },
            },
    {
        self.db.store_shielded_note(commitment, txid, amount, source_chain_id, token, now)
    }

    /// The statistics of the store.
    pub fn stats(&self) -> (stats: Stats)
        requires
            self.wf(),
        ensures
            stats == stats_of(self@.deposits, self@.withdrawals),
    {
        self.db.get_stats()
    }

    /// Rebalance liquidity across chains: every pool whose locked share
    /// exceeds the threshold gets its rebalance decision, in pool order, and
    /// is stamped with the time `now` unless the decision was a rejection.
    /// No funds move.
    pub fn rebalance_liquidity(&mut self, now: u64) -> (reports: Vec<RebalanceReport>)
        requires
            old(self).wf(),
        ensures
            final(self).wf(),
            final(self).registry() == old(self).registry(),
            final(self).shielded_notes() == old(self).shielded_notes(),
            final(self).zcash_state() == old(self).zcash_state(),
            final(self).liquidity_settings() == old(self).liquidity_settings(),
            final(self).pool_order() == old(self).pool_order(),
            final(self)@.deposits == old(self)@.deposits,
            final(self)@.withdrawals == old(self)@.withdrawals,
            final(self)@.nullifiers == old(self)@.nullifiers,
            final(self)@.in_flight == old(self)@.in_flight,
            final(self)@.pools.dom() == old(self)@.pools.dom(),
            reports@.map_values(|report: RebalanceReport| (report.chain_id, report.token@)) == old(self).pool_order().filter(
                |key: (u64, Seq<char>)|
                    old(self)@.pools[key].spec_needs_rebalancing(old(self).liquidity_settings().rebalance_threshold),
            ),
            forall|i: int|
                0 <= i < reports@.len() ==> (#[trigger] reports@[i]).decision == rebalance_decision(
                    old(self)@.pools[(reports@[i].chain_id, reports@[i].token@)],
                    old(self).liquidity_settings(),
                ),
            forall|key: (u64, Seq<char>)| #[trigger]
                old(self)@.pools.dom().contains(key) ==> final(self)@.pools[key] == old(self)@.pools[key] || final(self)@.pools[key] == stamped(old(self)@.pools[key], now),
            forall|key: (u64, Seq<char>)|
                #[trigger] old(self)@.pools.dom().contains(key) && old(self)@.pools[key].spec_needs_rebalancing(
                    old(self).liquidity_settings().rebalance_threshold,
                ) && rebalance_decision(old(self)@.pools[key], old(self).liquidity_settings())
                    != RebalanceDecision::Rejected ==> final(self)@.pools[key] == stamped(
                    old(self)@.pools[key],
                    now,
                ),
    {
        let ghost before = self@;
        let ghost manager = self.liquidity_manager;
        let reports = self.liquidity_manager.rebalance_all(now);
        proof {
            self.liquidity_manager.lemma_pools();
            manager.lemma_pools();
            let after = self@;
            assert forall|i: int|
                0 <= i < after.withdrawals.len() && (#[trigger] after.withdrawals[i]).authorized implies is_spent(
                after,
                after.withdrawals[i].nullifier,
            ) by {
                assert(is_spent(before, before.withdrawals[i].nullifier));
            }
            assert(in_flight_ready(self.registry(), after)) by {
                if after.in_flight is Some && after.in_flight->0.phase == Phase::CreatingNote {
                    let d = deposit_of(before, before.in_flight->0.id);
                    let key = destination(self.registry(), d.target_chain_id, d.token)->0;
                    assert(before.pools.dom().contains(key));
                }
            }
        }
        reports
    }

    fn flight_is(&self, id: &str, phase: Phase) -> (b: bool)
        ensures
            b == (self@.in_flight == Some(InFlightView { id: id@, phase })),
    {
        match &self.in_flight {
            Some(flight) => flight.phase == phase && str_eq(flight.id.as_str(), id),
            None => false,
        }
    }

    /// Generate authorization signature for withdrawal: the SHA-256 digest
    /// of the withdrawal's message. No key goes into it: it binds the
    /// withdrawal's fields together, and whoever knows them can compute it.
    pub fn generate_withdrawal_signature(
        &self,
        withdrawal_id: &str,
        recipient: &str,
        token: &str,
        amount: u64,
        nullifier: &[u8],
    ) -> (signature: Vec<u8>)
        ensures
            signature@ == withdrawal_signature(withdrawal_id@, recipient@, token@, amount, nullifier@),
            signature@.len() == 32,
    {
        let mut message: Vec<u8> = Vec::new();
        message.extend_from_slice(withdrawal_id.as_bytes());
        message.extend_from_slice(recipient.as_bytes());
        message.extend_from_slice(token.as_bytes());
        let amount_bytes = vstd::bytes::u64_to_le_bytes(amount);
        message.extend_from_slice(amount_bytes.as_slice());
        message.extend_from_slice(nullifier);
        assert(message@ =~= withdrawal_message(withdrawal_id@, recipient@, token@, amount, nullifier@));
        sha256(message.as_slice())
    }

    /// The first step of the deposit pipeline: the destination token is
    /// resolved and the destination pool is asked for the amount. Where both
    /// succeed, the deposit is in flight and the capability is to create its
    /// note; otherwise the deposit is left pending and nothing changes.
    pub fn begin_deposit(&mut self, deposit_id: &str) -> (step: DepositStep)
        requires
            old(self).wf(),
        ensures
            final(self).wf(),
            final(self).registry() == old(self).registry(),
            final(self).shielded_notes() == old(self).shielded_notes(),
            final(self).zcash_state() == old(self).zcash_state(),
            final(self).liquidity_settings() == old(self).liquidity_settings(),
            final(self).pool_order() == old(self).pool_order(),
            (final(self)@, step.kind()) == begin_deposit_spec(old(self).registry(), old(self)@, deposit_id@),
            match step {
                DepositStep::CreateNote(request) => {
                    let d = deposit_of(old(self)@, deposit_id@);
                    &&& request.deposit_id@ == d.deposit_id
                    &&& request.source_chain_id == d.source_chain_id
                    &&& request.token@ == d.token
                    &&& request.amount == d.amount
                    &&& request.recipient@ == d.recipient
                    &&& request.zcash_address@ == d.zcash_address
                },
                _ => true,
            },
    {
        if self.in_flight.is_some() {
            return DepositStep::Busy;
        }
        let request = match self.db.get_deposit(deposit_id) {
            None => {
                return DepositStep::NotPending;
            },
            Some(deposit) => {
                if deposit.processed {
                    return DepositStep::NotPending;
                }
                let token_info = match self.token_registry.get_token_for_chain(
                    deposit.target_chain_id,
                    deposit.token.as_str(),
                ) {
                    Err(_) => {
                        return DepositStep::Retry(RetryReason::TokenNotFound);
                    },
                    Ok(token_info) => token_info,
                };
                match self.liquidity_manager.ensure_liquidity(
                    deposit.target_chain_id,
                    token_info.address.as_str(),
                    deposit.amount,
                ) {
                    Err(LiquidityError::PoolNotFound) => {
                        return DepositStep::Retry(RetryReason::PoolNotFound);
                    },
                    Err(_) => {
                        return DepositStep::Retry(RetryReason::InsufficientLiquidity);
                    },
                    Ok(()) => {},
                }
                NoteRequest {
                    deposit_id: deposit.deposit_id.clone(),
                    source_chain_id: deposit.source_chain_id,
                    token: deposit.token.clone(),
                    amount: deposit.amount,
                    recipient: deposit.recipient.clone(),
                    zcash_address: deposit.zcash_address.clone(),
                }
            },
        };
        self.in_flight = Some(InFlight { id: deposit_id.to_owned(), phase: Phase::CreatingNote });
        DepositStep::CreateNote(request)
    }

    /// The last step of the deposit pipeline. With a note, the amount is
    /// locked in the destination pool and the deposit is marked processed
    /// with the note's commitment in hexadecimal and the settlement
    /// transaction. Without one, the deposit is left pending.
    pub fn complete_deposit(&mut self, deposit_id: &str, note: Option<(Vec<u8>, String)>) -> (outcome: DepositOutcome)
        requires
            old(self).wf(),
        ensures
            final(self).wf(),
            final(self).registry() == old(self).registry(),
            final(self).shielded_notes() == old(self).shielded_notes(),
            final(self).zcash_state() == old(self).zcash_state(),
            final(self).liquidity_settings() == old(self).liquidity_settings(),
            final(self).pool_order() == old(self).pool_order(),
            (final(self)@, outcome.kind()) == complete_deposit_spec(
                old(self).registry(),
                old(self)@,
                deposit_id@,
                match note {
                    Some(found) => Some((found.0@, found.1@)),
                    None => None,
                },
            ),
            match outcome {
                DepositOutcome::Processed { note_commitment, pool } => {
                    let d = deposit_of(old(self)@, deposit_id@);
                    let key = destination(old(self).registry(), d.target_chain_id, d.token)->0;
                    &&& note matches Some(found)
                    &&& note_commitment@ == spec_hex_encode(found.0@)
                    &&& pool.before == Some(old(self)@.pools[key])
                    &&& pool.after == final(self)@.pools[key]
                    &&& pool.key() == key
                    &&& pool.restorable()
                    &&& has_deposit(final(self)@.deposits, deposit_id@)
                    &&& deposit_of(final(self)@, deposit_id@).processed
                },
                _ => true,
            },
    {
        if !self.flight_is(deposit_id, Phase::CreatingNote) {
            return DepositOutcome::OutOfOrder;
        }
        let ghost before = self@;
        let (commitment, txid) = match note {
            None => {
                self.in_flight = None;
                return DepositOutcome::Retry(RetryReason::NoteFailed);
            },
            Some(found) => found,
        };
        let (chain_id, amount, address) = match self.db.get_deposit(deposit_id) {
            None => {
                assert(false);
                return DepositOutcome::OutOfOrder;
            },
            Some(deposit) => match self.token_registry.get_token_for_chain(
                deposit.target_chain_id,
                deposit.token.as_str(),
            ) {
                Err(_) => {
                    assert(false);
                    return DepositOutcome::OutOfOrder;
                },
                Ok(token_info) => (deposit.target_chain_id, deposit.amount, token_info.address),
            },
        };
        let pool = match self.liquidity_manager.lock_liquidity(chain_id, address.as_str(), amount) {
            Err(_) => {
                assert(false);
                return DepositOutcome::OutOfOrder;
            },
            Ok(change) => change,
        };
        let note_commitment = hex_encode(commitment.as_slice());
        let _ = self.db.mark_deposit_processed(deposit_id, note_commitment.as_str(), txid.as_str());
        self.in_flight = None;
        proof {
            self.liquidity_manager.lemma_pools();
            let idx = deposit_index(before.deposits, deposit_id@);
            assert(self@.deposits[idx].deposit_id == deposit_id@);
            lemma_deposit_index(self@.deposits, idx);
        }
        DepositOutcome::Processed { note_commitment, pool }
    }

    /// The first step of the withdrawal pipeline. A withdrawal whose
    /// nullifier is on record as spent is discarded. Otherwise the
    /// withdrawal is in flight and the capability is to verify its proof.
    pub fn begin_withdrawal(&mut self, withdrawal_id: &str) -> (step: WithdrawalStep)
        requires
            old(self).wf(),
        ensures
            final(self).wf(),
            final(self).registry() == old(self).registry(),
            final(self).shielded_notes() == old(self).shielded_notes(),
            final(self).zcash_state() == old(self).zcash_state(),
            final(self).liquidity_settings() == old(self).liquidity_settings(),
            final(self).pool_order() == old(self).pool_order(),
            (final(self)@, step.kind()) == begin_withdrawal_spec(old(self)@, withdrawal_id@),
            match step {
                WithdrawalStep::VerifyProof(request) => {
                    let w = withdrawal_of(old(self)@, withdrawal_id@);
                    &&& request.nullifier@ == w.nullifier
                    &&& request.zcash_proof@ == w.zcash_proof
                    &&& request.merkle_root@ == w.merkle_root
                    &&& request.amount == w.amount
                },
                _ => true,
            },
    {
        if self.in_flight.is_some() {
            return WithdrawalStep::Busy;
        }
        let ghost before = self@;
        let request = match self.db.get_withdrawal(withdrawal_id) {
            None => {
                return WithdrawalStep::NotPending;
            },
            Some(withdrawal) => {
                if withdrawal.authorized {
                    return WithdrawalStep::NotPending;
                }
                let text = hex_encode(withdrawal.nullifier.as_slice());
                if self.db.is_nullifier_spent(text.as_str()) {
                    None
                } else {
                    Some(
                        ProofRequest {
                            nullifier: withdrawal.nullifier.clone(),
                            zcash_proof: withdrawal.zcash_proof.clone(),
                            merkle_root: withdrawal.merkle_root.clone(),
                            amount: withdrawal.amount,
                        },
                    )
                }
            },
        };
        match request {
            None => {
                let _ = self.db.mark_withdrawal_invalid(withdrawal_id, "Nullifier already used");
                proof {
                    lemma_remove_withdrawal(before, withdrawal_id@, self@);
                }
                WithdrawalStep::Discarded(DiscardReason::NullifierUsed)
            },
            Some(request) => {
                self.in_flight = Some(InFlight { id: withdrawal_id.to_owned(), phase: Phase::VerifyingProof });
                WithdrawalStep::VerifyProof(request)
            },
        }
    }

    /// The second step of the withdrawal pipeline. An invalid proof
    /// discards the withdrawal: no signature is made and no pool is touched.
    /// A valid proof sends the capability to mark the nullifier spent.
    /// Without a verdict the withdrawal is left pending.
    pub fn proof_checked(&mut self, withdrawal_id: &str, verdict: Option<bool>) -> (step: WithdrawalStep)
        requires
            old(self).wf(),
        ensures
            final(self).wf(),
            final(self).registry() == old(self).registry(),
            final(self).shielded_notes() == old(self).shielded_notes(),
            final(self).zcash_state() == old(self).zcash_state(),
            final(self).liquidity_settings() == old(self).liquidity_settings(),
            final(self).pool_order() == old(self).pool_order(),
            (final(self)@, step.kind()) == proof_checked_spec(old(self)@, withdrawal_id@, verdict),
            match step {
                WithdrawalStep::MarkNullifierSpent(nullifier) => nullifier@ == withdrawal_of(
                    old(self)@,
                    withdrawal_id@,
                ).nullifier,
                _ => true,
            },
    {
        if !self.flight_is(withdrawal_id, Phase::VerifyingProof) {
            return WithdrawalStep::OutOfOrder;
        }
        let ghost before = self@;
        match verdict {
            None => {
                self.in_flight = None;
                WithdrawalStep::Retry(RetryReason::ProofUnavailable)
            },
            Some(false) => {
                let _ = self.db.mark_withdrawal_invalid(withdrawal_id, "Invalid proof");
                self.in_flight = None;
                proof {
                    lemma_remove_withdrawal(EngineState { in_flight: None, ..before }, withdrawal_id@, self@);
                }
                WithdrawalStep::Discarded(DiscardReason::InvalidProof)
            },
            Some(true) => {
                let nullifier = match self.db.get_withdrawal(withdrawal_id) {
                    None => {
                        assert(false);
                        return WithdrawalStep::OutOfOrder;
                    },
                    Some(withdrawal) => withdrawal.nullifier.clone(),
                };
                self.in_flight = Some(InFlight { id: withdrawal_id.to_owned(), phase: Phase::MarkingNullifier });
                WithdrawalStep::MarkNullifierSpent(nullifier)
            },
        }
    }

    /// The last step of the withdrawal pipeline. Once the capability has
    /// marked the nullifier spent, the store records it as spent at `now`,
    /// the destination token is resolved, the withdrawal is authorized under
    /// its signature, and its amount is released in the destination pool.
    /// If the capability did not mark the nullifier, the withdrawal is left
    /// pending.
    pub fn nullifier_marked(&mut self, withdrawal_id: &str, marked: bool, now: i64) -> (outcome: WithdrawalOutcome)
        requires
            old(self).wf(),
        ensures
            final(self).wf(),
            final(self).registry() == old(self).registry(),
            final(self).shielded_notes() == old(self).shielded_notes(),
            final(self).zcash_state() == old(self).zcash_state(),
            final(self).liquidity_settings() == old(self).liquidity_settings(),
            final(self).pool_order() == old(self).pool_order(),
            (final(self)@, outcome.kind()) == nullifier_marked_spec(
                old(self).registry(),
                old(self)@,
                withdrawal_id@,
                marked,
                now,
            ),
            match outcome {
                WithdrawalOutcome::Authorized { signature, token_address, release } => {
                    let w = withdrawal_of(old(self)@, withdrawal_id@);
                    let key = (w.target_chain_id, token_address@);
                    &&& old(self).registry().spec_token_for_chain(w.target_chain_id, w.token) is Some
                    &&& token_address@ == old(self).registry().spec_token_for_chain(
                        w.target_chain_id,
                        w.token,
                    )->0.address@
                    &&& signature@ == withdrawal_signature(
                        w.withdrawal_id,
                        w.recipient,
                        token_address@,
                        w.amount,
                        w.nullifier,
                    )
                    &&& match release {
                        Ok(change) => {
                            &&& old(self)@.pools.dom().contains(key)
                            &&& change.before == Some(old(self)@.pools[key])
                            &&& change.after == final(self)@.pools[key]
                            &&& change.key() == key
                            &&& change.restorable()
                        },
                        Err(error) => error == LiquidityError::PoolNotFound && !old(self)@.pools.dom().contains(key),
                    }
                },
                _ => true,
            },
    {
        if !self.flight_is(withdrawal_id, Phase::MarkingNullifier) {
            return WithdrawalOutcome::OutOfOrder;
        }
        let ghost before = self@;
        if !marked {
            self.in_flight = None;
            return WithdrawalOutcome::Retry(RetryReason::NullifierNotMarked);
        }
        let withdrawal = match self.db.get_withdrawal(withdrawal_id) {
            None => {
                assert(false);
                return WithdrawalOutcome::OutOfOrder;
            },
            Some(withdrawal) => withdrawal.duplicate(),
        };
        let ghost w = withdrawal@;
        assert(w == withdrawal_of(before, withdrawal_id@));
        let text = hex_encode(withdrawal.nullifier.as_slice());
        self.db.mark_nullifier_spent(text.as_str(), now);
        self.in_flight = None;
        proof {
            let marked_state = self@;
            assert forall|i: int|
                0 <= i < marked_state.withdrawals.len() && (#[trigger] marked_state.withdrawals[i]).authorized implies is_spent(
                marked_state,
                marked_state.withdrawals[i].nullifier,
            ) by {
                assert(is_spent(before, before.withdrawals[i].nullifier));
            }
        }
        let token_info = match self.token_registry.get_token_for_chain(
            withdrawal.target_chain_id,
            withdrawal.token.as_str(),
        ) {
            Err(_) => {
                return WithdrawalOutcome::Failed;
            },
            Ok(token_info) => token_info,
        };
        let signature = self.generate_withdrawal_signature(
            withdrawal.withdrawal_id.as_str(),
            withdrawal.recipient.as_str(),
            token_info.address.as_str(),
            withdrawal.amount,
            withdrawal.nullifier.as_slice(),
        );
        let ghost marked_state = self@;
        let _ = self.db.authorize_withdrawal(
            withdrawal_id,
            token_info.address.as_str(),
            withdrawal.amount,
            signature.as_slice(),
        );
        proof {
            let after = self@.withdrawals;
            let idx = withdrawal_index(before.withdrawals, withdrawal_id@);
            lemma_withdrawal_index(before.withdrawals, idx);
            assert forall|i: int| 0 <= i < after.len() && (#[trigger] after[i]).authorized implies is_spent(
                self@,
                after[i].nullifier,
            ) by {
                if i != idx {
                    assert(before.withdrawals[i].withdrawal_id != before.withdrawals[idx].withdrawal_id);
                    assert(after[i] == before.withdrawals[i]);
                    assert(is_spent(marked_state, marked_state.withdrawals[i].nullifier));
                }
            }
            assert forall|i: int, j: int|
                0 <= i < j < after.len() && (#[trigger] after[i]).authorized && (
                #[trigger] after[j]).authorized implies after[i].nullifier != after[j].nullifier by {
                if i != idx {
                    assert(before.withdrawals[i].withdrawal_id != before.withdrawals[idx].withdrawal_id);
                    assert(after[i] == before.withdrawals[i]);
                    assert(is_spent(before, before.withdrawals[i].nullifier));
                }
                if j != idx {
                    assert(before.withdrawals[j].withdrawal_id != before.withdrawals[idx].withdrawal_id);
                    assert(after[j] == before.withdrawals[j]);
                    assert(is_spent(before, before.withdrawals[j].nullifier));
                }
            }
        }
        let release = self.liquidity_manager.release_liquidity(
            withdrawal.target_chain_id,
            token_info.address.as_str(),
            withdrawal.amount,
        );
        proof {
            self.liquidity_manager.lemma_pools();
        }
        WithdrawalOutcome::Authorized { signature, token_address: token_info.address, release }
    }
}

/// Discarding a pending withdrawal keeps the engine in order.
proof fn lemma_remove_withdrawal(before: EngineState, id: Seq<char>, after: EngineState)
    requires
        withdrawals_in_order(before.withdrawals),
        withdrawals_in_order(after.withdrawals),
        nullifiers_exclusive(before),
        has_withdrawal(before.withdrawals, id),
        after.withdrawals == before.withdrawals.remove(withdrawal_index(before.withdrawals, id)),
        after.nullifiers == before.nullifiers,
    ensures
        nullifiers_exclusive(after),
{
    let idx = withdrawal_index(before.withdrawals, id);
    assert forall|i: int|
        0 <= i < after.withdrawals.len() && (#[trigger] after.withdrawals[i]).authorized implies is_spent(
        after,
        after.withdrawals[i].nullifier,
    ) by {
        let oi = if i < idx { i } else { i + 1 };
        assert(after.withdrawals[i] == before.withdrawals[oi]);
        assert(is_spent(before, before.withdrawals[oi].nullifier));
    }
    assert forall|i: int, j: int|
        0 <= i < j < after.withdrawals.len() && (#[trigger] after.withdrawals[i]).authorized && (
        #[trigger] after.withdrawals[j]).authorized implies after.withdrawals[i].nullifier
        != after.withdrawals[j].nullifier by {
        let oi = if i < idx { i } else { i + 1 };
        let oj = if j < idx { j } else { j + 1 };
        assert(after.withdrawals[i] == before.withdrawals[oi]);
        assert(after.withdrawals[j] == before.withdrawals[oj]);
    }
}

} // verus!
