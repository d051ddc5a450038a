//! What holds of the engine over every sequence of events.
//!
//! The engine's steps are functions on its model. An event is a
//! notification or one call of a step of a pipeline; a run applies a sequence
//! of events in order. The laws below are stated of single steps and of
//! whole runs.

use vstd::prelude::*;
use crate::coordinator::database::{
    deposit_index, deposit_times, deposits_in_order, has_deposit, has_withdrawal, is_insertion_point,
    processed_deposit, with_authorized, with_processed, withdrawal_index, withdrawal_times, withdrawals_in_order,
    DepositView, WithdrawalView,
};
use crate::coordinator::engine::{
    begin_deposit_spec, begin_withdrawal_spec, complete_deposit_spec, deposit_obstacle, deposit_of, destination,
    engine_ok, insertion_point, is_spent, lemma_deposit_index, lemma_insert_deposit,
    lemma_insert_withdrawal, lemma_withdrawal_index, nullifier_marked_spec,
    nullifiers_exclusive, pending_deposit, pending_withdrawal, proof_checked_spec, store_deposit_spec,
    store_withdrawal_spec, withdrawal_of, withdrawal_signature, DepositOutcomeKind, DepositStepKind, DiscardReason,
    EngineState, InFlightView, Phase, WithdrawalStepKind,
};
use crate::coordinator::liquidity_manager::{filed_under, lemma_lock_release_keep_total};
use crate::casing::spec_lowercase;
use crate::coordinator::token_registry::{alias_key, TokenRegistry};
use crate::hexcode::spec_hex_encode;

verus! {

/// A notification, or one call of a step of a pipeline.
pub enum EngineEvent {
    NotifyDeposit(DepositView),
    NotifyWithdrawal(WithdrawalView),
    BeginDeposit(Seq<char>),
    CompleteDeposit(Seq<char>, Option<(Seq<u8>, Seq<char>)>),
    BeginWithdrawal(Seq<char>),
    ProofChecked(Seq<char>, Option<bool>),
    NullifierMarked(Seq<char>, bool, i64),
}

/// The engine after one event.
pub open spec fn engine_step(registry: TokenRegistry, s: EngineState, event: EngineEvent) -> EngineState {
    match event {
        EngineEvent::NotifyDeposit(d) => store_deposit_spec(s, d),
        EngineEvent::NotifyWithdrawal(w) => store_withdrawal_spec(
            s,
            WithdrawalView { authorized: false, auth_signature: None, ..w },
        ),
        EngineEvent::BeginDeposit(id) => begin_deposit_spec(registry, s, id).0,
        EngineEvent::CompleteDeposit(id, note) => complete_deposit_spec(registry, s, id, note).0,
        EngineEvent::BeginWithdrawal(id) => begin_withdrawal_spec(s, id).0,
        EngineEvent::ProofChecked(id, verdict) => proof_checked_spec(s, id, verdict).0,
        EngineEvent::NullifierMarked(id, marked, now) => nullifier_marked_spec(registry, s, id, marked, now).0,
    }
}

/// The engine after a sequence of events, applied in order.
pub open spec fn engine_run(registry: TokenRegistry, s: EngineState, events: Seq<EngineEvent>) -> EngineState
    decreases events.len(),
{
    if events.len() == 0 {
        s
    } else {
        engine_step(registry, engine_run(registry, s, events.drop_last()), events.last())
    }
}

/// Creation times in order.
pub open spec fn times_in_order(times: Seq<i64>) -> bool {
    forall|i: int, j: int| 0 <= i < j < times.len() ==> times[i] <= times[j]
}

/// Among creation times in order there is an insertion point for every time.
pub proof fn lemma_insertion_point_exists(times: Seq<i64>, at: i64)
    requires
        times_in_order(times),
    ensures
        is_insertion_point(times, at, insertion_point(times, at)),
    decreases times.len(),
{
    if times.len() == 0 {
        assert(is_insertion_point(times, at, 0));
    } else {
        let shorter = times.drop_last();
        lemma_insertion_point_exists(shorter, at);
        let pos = insertion_point(shorter, at);
        if times.last() <= at {
            assert forall|j: int| 0 <= j < times.len() implies #[trigger] times[j] <= at by {
                assert(times[j] <= times[times.len() - 1]);
            }
            assert(is_insertion_point(times, at, times.len() as int));
        } else {
            assert forall|j: int| 0 <= j < pos implies #[trigger] times[j] <= at by {
                assert(shorter[j] <= at);
            }
            assert forall|j: int| pos <= j < times.len() implies #[trigger] times[j] > at by {
                if j < shorter.len() {
                    assert(shorter[j] > at);
                }
            }
            assert(is_insertion_point(times, at, pos));
        }
    }
}

/// Storing a new deposit keeps the deposits in order.
pub proof fn lemma_store_deposit_order(deposits: Seq<DepositView>, d: DepositView)
    requires
        deposits_in_order(deposits),
        !has_deposit(deposits, d.deposit_id),
    ensures
        is_insertion_point(deposit_times(deposits), d.created_at, insertion_point(deposit_times(deposits), d.created_at)),
        deposits_in_order(deposits.insert(insertion_point(deposit_times(deposits), d.created_at), d)),
{
    let times = deposit_times(deposits);
    assert(times_in_order(times)) by {
        assert forall|i: int, j: int| 0 <= i < j < times.len() implies times[i] <= times[j] by {
            assert(deposits[i].created_at <= deposits[j].created_at);
        }
    }
    lemma_insertion_point_exists(times, d.created_at);
    let pos = insertion_point(times, d.created_at);
    let after = deposits.insert(pos, d);
    assert forall|i: int, j: int| 0 <= i < j < after.len() implies (#[trigger] after[i]).deposit_id != (
    #[trigger] after[j]).deposit_id && after[i].created_at <= after[j].created_at by {
        let oi = if i < pos { i } else { i - 1 };
        let oj = if j < pos { j } else { j - 1 };
        if i != pos && j != pos {
            assert(deposits[oi].deposit_id != deposits[oj].deposit_id);
            assert(deposits[oi].created_at <= deposits[oj].created_at);
        } else if i == pos {
            assert(deposits[oj].deposit_id != d.deposit_id);
            assert(times[oj] > d.created_at);
        } else {
            assert(deposits[oi].deposit_id != d.deposit_id);
            assert(times[oi] <= d.created_at);
        }
    }
}

/// Storing a new withdrawal keeps the withdrawals in order.
pub proof fn lemma_store_withdrawal_order(withdrawals: Seq<WithdrawalView>, w: WithdrawalView)
    requires
        withdrawals_in_order(withdrawals),
        !has_withdrawal(withdrawals, w.withdrawal_id),
    ensures
        is_insertion_point(
            withdrawal_times(withdrawals),
            w.created_at,
            insertion_point(withdrawal_times(withdrawals), w.created_at),
        ),
        withdrawals_in_order(withdrawals.insert(insertion_point(withdrawal_times(withdrawals), w.created_at), w)),
{
    let times = withdrawal_times(withdrawals);
    assert(times_in_order(times)) by {
        assert forall|i: int, j: int| 0 <= i < j < times.len() implies times[i] <= times[j] by {
            assert(withdrawals[i].created_at <= withdrawals[j].created_at);
        }
    }
    lemma_insertion_point_exists(times, w.created_at);
    let pos = insertion_point(times, w.created_at);
    let after = withdrawals.insert(pos, w);
    assert forall|i: int, j: int| 0 <= i < j < after.len() implies (#[trigger] after[i]).withdrawal_id != (
    #[trigger] after[j]).withdrawal_id && after[i].created_at <= after[j].created_at by {
        let oi = if i < pos { i } else { i - 1 };
        let oj = if j < pos { j } else { j - 1 };
        if i != pos && j != pos {
            assert(withdrawals[oi].withdrawal_id != withdrawals[oj].withdrawal_id);
            assert(withdrawals[oi].created_at <= withdrawals[oj].created_at);
        } else if i == pos {
            assert(withdrawals[oj].withdrawal_id != w.withdrawal_id);
            assert(times[oj] > w.created_at);
        } else {
            assert(withdrawals[oi].withdrawal_id != w.withdrawal_id);
            assert(times[oi] <= w.created_at);
        }
    }
}

/// Idempotent notification of deposits. Notifying a deposit a second time
/// changes nothing: after the first time the store holds one record with its
/// id, and the second time leaves the engine as it is.
pub proof fn lemma_notify_deposit_idempotent(s: EngineState, d: DepositView)
    requires
        deposits_in_order(s.deposits),
    ensures
        store_deposit_spec(store_deposit_spec(s, d), d) == store_deposit_spec(s, d),
        deposits_in_order(store_deposit_spec(s, d).deposits),
        has_deposit(store_deposit_spec(s, d).deposits, d.deposit_id),
        forall|i: int, j: int|
            #![trigger store_deposit_spec(s, d).deposits[i], store_deposit_spec(s, d).deposits[j]]
            0 <= i < store_deposit_spec(s, d).deposits.len() && 0 <= j < store_deposit_spec(s, d).deposits.len()
                && store_deposit_spec(s, d).deposits[i].deposit_id == d.deposit_id && store_deposit_spec(
                s,
                d,
            ).deposits[j].deposit_id == d.deposit_id ==> i == j,
{
    let after = store_deposit_spec(s, d).deposits;
    if !has_deposit(s.deposits, d.deposit_id) {
        lemma_store_deposit_order(s.deposits, d);
        let pos = insertion_point(deposit_times(s.deposits), d.created_at);
        assert(after[pos].deposit_id == d.deposit_id);
    }
    assert forall|i: int, j: int|
        0 <= i < after.len() && 0 <= j < after.len() && after[i].deposit_id == d.deposit_id && after[j].deposit_id
            == d.deposit_id implies i == j by {
        if i < j {
            assert(after[i].deposit_id != after[j].deposit_id);
        }
        if j < i {
            assert(after[j].deposit_id != after[i].deposit_id);
        }
    }
}

/// Idempotent notification of withdrawals. Notifying a withdrawal a second
/// time changes nothing: after the first time the store holds one record
/// with its id, and the second time leaves the engine as it is.
pub proof fn lemma_notify_withdrawal_idempotent(s: EngineState, w: WithdrawalView)
    requires
        withdrawals_in_order(s.withdrawals),
    ensures
        store_withdrawal_spec(store_withdrawal_spec(s, w), w) == store_withdrawal_spec(s, w),
        withdrawals_in_order(store_withdrawal_spec(s, w).withdrawals),
        has_withdrawal(store_withdrawal_spec(s, w).withdrawals, w.withdrawal_id),
        forall|i: int, j: int|
            #![trigger store_withdrawal_spec(s, w).withdrawals[i], store_withdrawal_spec(s, w).withdrawals[j]]
            0 <= i < store_withdrawal_spec(s, w).withdrawals.len() && 0 <= j < store_withdrawal_spec(
                s,
                w,
            ).withdrawals.len() && store_withdrawal_spec(s, w).withdrawals[i].withdrawal_id == w.withdrawal_id
                && store_withdrawal_spec(s, w).withdrawals[j].withdrawal_id == w.withdrawal_id ==> i == j,
{
    let after = store_withdrawal_spec(s, w).withdrawals;
    if !has_withdrawal(s.withdrawals, w.withdrawal_id) {
        lemma_store_withdrawal_order(s.withdrawals, w);
        let pos = insertion_point(withdrawal_times(s.withdrawals), w.created_at);
        assert(after[pos].withdrawal_id == w.withdrawal_id);
    }
    assert forall|i: int, j: int|
        0 <= i < after.len() && 0 <= j < after.len() && after[i].withdrawal_id == w.withdrawal_id
            && after[j].withdrawal_id == w.withdrawal_id implies i == j by {
        if i < j {
            assert(after[i].withdrawal_id != after[j].withdrawal_id);
        }
        if j < i {
            assert(after[j].withdrawal_id != after[i].withdrawal_id);
        }
    }
}

/// One processing outcome per deposit. Once a deposit is processed, the
/// pipeline does not take it up again: its first step answers that no such
/// deposit is pending, and changes nothing.
pub proof fn lemma_deposit_processed_once(
    registry: TokenRegistry,
    s: EngineState,
    id: Seq<char>,
    note: (Seq<u8>, Seq<char>),
)
    requires
        engine_ok(registry, s),
        complete_deposit_spec(registry, s, id, Some(note)).1 == DepositOutcomeKind::Processed,
    ensures
        has_deposit(complete_deposit_spec(registry, s, id, Some(note)).0.deposits, id),
        deposit_of(complete_deposit_spec(registry, s, id, Some(note)).0, id).processed,
        begin_deposit_spec(registry, complete_deposit_spec(registry, s, id, Some(note)).0, id) == (
            complete_deposit_spec(registry, s, id, Some(note)).0,
            DepositStepKind::NotPending,
        ),
{
    let after = complete_deposit_spec(registry, s, id, Some(note)).0;
    let idx = deposit_index(s.deposits, id);
    assert(after.deposits[idx].deposit_id == id);
    assert(after.deposits[idx].processed);
    lemma_with_processed_order(s.deposits, id, spec_hex_encode(note.0), note.1);
    lemma_deposit_index(after.deposits, idx);
}

/// Marking a deposit processed keeps the deposits in order.
pub proof fn lemma_with_processed_order(
    deposits: Seq<DepositView>,
    id: Seq<char>,
    commitment: Seq<char>,
    txid: Seq<char>,
)
    requires
        deposits_in_order(deposits),
    ensures
        deposits_in_order(with_processed(deposits, id, commitment, txid)),
{
    let after = with_processed(deposits, id, commitment, txid);
    assert forall|i: int, j: int| 0 <= i < j < after.len() implies (#[trigger] after[i]).deposit_id != (
    #[trigger] after[j]).deposit_id && after[i].created_at <= after[j].created_at by {
        assert(deposits[i].deposit_id != deposits[j].deposit_id);
        assert(deposits[i].created_at <= deposits[j].created_at);
    }
}

/// Authorizing a withdrawal keeps the withdrawals in order.
pub proof fn lemma_with_authorized_order(withdrawals: Seq<WithdrawalView>, id: Seq<char>, signature: Seq<u8>)
    requires
        withdrawals_in_order(withdrawals),
    ensures
        withdrawals_in_order(with_authorized(withdrawals, id, signature)),
{
    let after = with_authorized(withdrawals, id, signature);
    assert forall|i: int, j: int| 0 <= i < j < after.len() implies (#[trigger] after[i]).withdrawal_id != (
    #[trigger] after[j]).withdrawal_id && after[i].created_at <= after[j].created_at by {
        assert(withdrawals[i].withdrawal_id != withdrawals[j].withdrawal_id);
        assert(withdrawals[i].created_at <= withdrawals[j].created_at);
    }
}

/// Discarding a withdrawal keeps the withdrawals in order and nullifiers
/// exclusive.
pub proof fn lemma_discard_keeps_order(s: EngineState, idx: int)
    requires
        withdrawals_in_order(s.withdrawals),
        nullifiers_exclusive(s),
        0 <= idx < s.withdrawals.len(),
    ensures
        withdrawals_in_order(s.withdrawals.remove(idx)),
        nullifiers_exclusive(EngineState { withdrawals: s.withdrawals.remove(idx), in_flight: None, ..s }),
        nullifiers_exclusive(EngineState { withdrawals: s.withdrawals.remove(idx), ..s }),
{
    let before = s.withdrawals;
    let after = before.remove(idx);
    assert forall|i: int, j: int| 0 <= i < j < after.len() implies (#[trigger] after[i]).withdrawal_id != (
    #[trigger] after[j]).withdrawal_id && after[i].created_at <= after[j].created_at by {
        let oi = if i < idx { i } else { i + 1 };
        let oj = if j < idx { j } else { j + 1 };
        assert(before[oi].withdrawal_id != before[oj].withdrawal_id);
        assert(before[oi].created_at <= before[oj].created_at);
    }
    let t = EngineState { withdrawals: after, ..s };
    assert forall|i: int| 0 <= i < after.len() && (#[trigger] after[i]).authorized implies is_spent(
        t,
        after[i].nullifier,
    ) by {
        let oi = if i < idx { i } else { i + 1 };
        assert(after[i] == before[oi]);
        assert(is_spent(s, before[oi].nullifier));
    }
    assert forall|i: int, j: int|
        0 <= i < j < after.len() && (#[trigger] after[i]).authorized && (
        #[trigger] after[j]).authorized implies after[i].nullifier != after[j].nullifier by {
        let oi = if i < idx { i } else { i + 1 };
        let oj = if j < idx { j } else { j + 1 };
        assert(after[i] == before[oi]);
        assert(after[j] == before[oj]);
    }
    let u = EngineState { withdrawals: after, in_flight: None, ..s };
    assert forall|i: int| 0 <= i < after.len() && (#[trigger] after[i]).authorized implies is_spent(
        u,
        after[i].nullifier,
    ) by {
        assert(is_spent(t, after[i].nullifier));
    }
}

/// Every step keeps what holds of the engine between steps.
pub proof fn lemma_step_preserves(registry: TokenRegistry, s: EngineState, event: EngineEvent)
    requires
        engine_ok(registry, s),
    ensures
        engine_ok(registry, engine_step(registry, s, event)),
{
    let t = engine_step(registry, s, event);
    match event {
        EngineEvent::NotifyDeposit(d) => {
            if !has_deposit(s.deposits, d.deposit_id) {
                lemma_store_deposit_order(s.deposits, d);
                let pos = insertion_point(deposit_times(s.deposits), d.created_at);
                if s.in_flight is Some && s.in_flight->0.phase == Phase::CreatingNote {
                    lemma_insert_deposit(s.deposits, pos, d, s.in_flight->0.id);
                }
                assert(nullifiers_exclusive(t)) by {
                    assert forall|i: int|
                        0 <= i < t.withdrawals.len() && (#[trigger] t.withdrawals[i]).authorized implies is_spent(
                        t,
                        t.withdrawals[i].nullifier,
                    ) by {
                        assert(is_spent(s, s.withdrawals[i].nullifier));
                    }
                }
            }
        },
        EngineEvent::NotifyWithdrawal(w0) => {
            let w = WithdrawalView { authorized: false, auth_signature: None, ..w0 };
            if !has_withdrawal(s.withdrawals, w.withdrawal_id) {
                lemma_store_withdrawal_order(s.withdrawals, w);
                let pos = insertion_point(withdrawal_times(s.withdrawals), w.created_at);
                if s.in_flight is Some && s.in_flight->0.phase != Phase::CreatingNote {
                    lemma_insert_withdrawal(s.withdrawals, pos, w, s.in_flight->0.id);
                }
                let after = t.withdrawals;
                assert forall|i: int| 0 <= i < after.len() && (#[trigger] after[i]).authorized implies is_spent(
                    t,
                    after[i].nullifier,
                ) by {
                    let oi = if i < pos { i } else { i - 1 };
                    assert(after[i] == s.withdrawals[oi]);
                    assert(is_spent(s, s.withdrawals[oi].nullifier));
                }
                assert forall|i: int, j: int|
                    0 <= i < j < after.len() && (#[trigger] after[i]).authorized && (
                    #[trigger] after[j]).authorized implies after[i].nullifier != after[j].nullifier by {
                    let oi = if i < pos { i } else { i - 1 };
                    let oj = if j < pos { j } else { j - 1 };
                    assert(after[i] == s.withdrawals[oi]);
                    assert(after[j] == s.withdrawals[oj]);
                }
            }
        },
        EngineEvent::BeginDeposit(id) => {
            assert(nullifiers_exclusive(t)) by {
                assert forall|i: int|
                    0 <= i < t.withdrawals.len() && (#[trigger] t.withdrawals[i]).authorized implies is_spent(
                    t,
                    t.withdrawals[i].nullifier,
                ) by {
                    assert(is_spent(s, s.withdrawals[i].nullifier));
                }
            }
        },
        EngineEvent::CompleteDeposit(id, note) => {
            assert(nullifiers_exclusive(t)) by {
                assert forall|i: int|
                    0 <= i < t.withdrawals.len() && (#[trigger] t.withdrawals[i]).authorized implies is_spent(
                    t,
                    t.withdrawals[i].nullifier,
                ) by {
                    assert(is_spent(s, s.withdrawals[i].nullifier));
                }
            }
            if s.in_flight == Some(InFlightView { id, phase: Phase::CreatingNote })
                && note is Some {
                let d = deposit_of(s, id);
                let key = destination(registry, d.target_chain_id, d.token)->0;
                let (commitment, txid) = note->0;
                lemma_with_processed_order(s.deposits, id, spec_hex_encode(commitment), txid);
                assert(filed_under(key, s.pools[key]));
            }
        },
        EngineEvent::BeginWithdrawal(id) => {
            if s.in_flight is None && pending_withdrawal(s, id) {
                if is_spent(s, withdrawal_of(s, id).nullifier) {
                    lemma_discard_keeps_order(s, withdrawal_index(s.withdrawals, id));
                } else {
                    assert(nullifiers_exclusive(t)) by {
                        assert forall|i: int|
                            0 <= i < t.withdrawals.len() && (#[trigger] t.withdrawals[i]).authorized implies is_spent(
                            t,
                            t.withdrawals[i].nullifier,
                        ) by {
                            assert(is_spent(s, s.withdrawals[i].nullifier));
                        }
                    }
                }
            }
        },
        EngineEvent::ProofChecked(id, verdict) => {
            if s.in_flight == Some(InFlightView { id, phase: Phase::VerifyingProof }) {
                if verdict == Some(false) {
                    lemma_discard_keeps_order(s, withdrawal_index(s.withdrawals, id));
                } else {
                    assert(nullifiers_exclusive(t)) by {
                        assert forall|i: int|
                            0 <= i < t.withdrawals.len() && (#[trigger] t.withdrawals[i]).authorized implies is_spent(
                            t,
                            t.withdrawals[i].nullifier,
                        ) by {
                            assert(is_spent(s, s.withdrawals[i].nullifier));
                        }
                    }
                }
            }
        },
        EngineEvent::NullifierMarked(id, marked, now) => {
            if s.in_flight == Some(InFlightView { id, phase: Phase::MarkingNullifier }) {
                let w = withdrawal_of(s, id);
                let idx = withdrawal_index(s.withdrawals, id);
                lemma_withdrawal_index(s.withdrawals, idx);
                let after = t.withdrawals;
                if marked && registry.spec_token_for_chain(w.target_chain_id, w.token) is Some {
                    let found = registry.spec_token_for_chain(w.target_chain_id, w.token)->0;
                    let signature = withdrawal_signature(
                        w.withdrawal_id,
                        w.recipient,
                        found.address@,
                        w.amount,
                        w.nullifier,
                    );
                    lemma_with_authorized_order(s.withdrawals, id, signature);
                    let key = (w.target_chain_id, found.address@);
                    if s.pools.dom().contains(key) {
                        assert(filed_under(key, s.pools[key]));
                    }
                }
                assert forall|i: int| 0 <= i < after.len() && (#[trigger] after[i]).authorized implies is_spent(
                    t,
                    after[i].nullifier,
                ) by {
                    if i != idx {
                        assert(s.withdrawals[i].withdrawal_id != s.withdrawals[idx].withdrawal_id);
                        assert(after[i] == s.withdrawals[i]);
                        assert(is_spent(s, s.withdrawals[i].nullifier));
                    }
                }
                assert forall|i: int, j: int|
                    0 <= i < j < after.len() && (#[trigger] after[i]).authorized && (
                    #[trigger] after[j]).authorized implies after[i].nullifier != after[j].nullifier by {
                    if i != idx {
                        assert(s.withdrawals[i].withdrawal_id != s.withdrawals[idx].withdrawal_id);
                        assert(after[i] == s.withdrawals[i]);
                        assert(is_spent(s, s.withdrawals[i].nullifier));
                    }
                    if j != idx {
                        assert(s.withdrawals[j].withdrawal_id != s.withdrawals[idx].withdrawal_id);
                        assert(after[j] == s.withdrawals[j]);
                        assert(is_spent(s, s.withdrawals[j].nullifier));
                    }
                }
            }
        },
    }
}

/// Nullifier exclusivity over every run. Whatever sequence of events the
/// engine goes through, no two authorized withdrawals share a nullifier, and
/// every authorized withdrawal's nullifier is on record as spent.
pub proof fn lemma_nullifier_exclusivity(registry: TokenRegistry, s: EngineState, events: Seq<EngineEvent>)
    requires
        engine_ok(registry, s),
    ensures
        engine_ok(registry, engine_run(registry, s, events)),
        nullifiers_exclusive(engine_run(registry, s, events)),
        forall|i: int, j: int|
            #![trigger engine_run(registry, s, events).withdrawals[i], engine_run(registry, s, events).withdrawals[j]]
            0 <= i < j < engine_run(registry, s, events).withdrawals.len() && engine_run(
                registry,
                s,
                events,
            ).withdrawals[i].authorized && engine_run(registry, s, events).withdrawals[j].authorized ==> engine_run(
                registry,
                s,
                events,
            ).withdrawals[i].nullifier != engine_run(registry, s, events).withdrawals[j].nullifier,
    decreases events.len(),
{
    if events.len() > 0 {
        lemma_nullifier_exclusivity(registry, s, events.drop_last());
        lemma_step_preserves(registry, engine_run(registry, s, events.drop_last()), events.last());
    }
}

/// A record draws on the pool of the address it names. The destination of
/// a record on a chain in a token is known exactly where the token's address
/// is registered on that chain, and it is then the pool of that chain and of
/// the registered address that is the named address in lower case: never
/// the pool of another address of the same token. The authorization of a
/// withdrawal signs that same address.
pub proof fn lemma_destination_is_the_address_named(registry: TokenRegistry, chain_id: u64, token: Seq<char>)
    requires
        registry.wf(),
    ensures
        destination(registry, chain_id, token) is Some <==> registry.canonical_ids().dom().contains(
            alias_key(chain_id, token),
        ),
        destination(registry, chain_id, token) matches Some(key) ==> {
            &&& key.0 == chain_id
            &&& spec_lowercase(key.1) == spec_lowercase(token)
            &&& registry.spec_token_for_chain(chain_id, token) matches Some(found) && found.address@ == key.1
        },
{
    registry.lemma_registered(chain_id, token);
}

/// Taking a withdrawal out of the list leaves no withdrawal with its id, and
/// leaves every other withdrawal as it was.
pub proof fn lemma_discarded_is_gone(withdrawals: Seq<WithdrawalView>, id: Seq<char>)
    requires
        withdrawals_in_order(withdrawals),
        has_withdrawal(withdrawals, id),
    ensures
        !has_withdrawal(withdrawals.remove(withdrawal_index(withdrawals, id)), id),
        forall|other: Seq<char>|
            other != id && has_withdrawal(withdrawals, other) ==> {
                &&& #[trigger] has_withdrawal(withdrawals.remove(withdrawal_index(withdrawals, id)), other)
                &&& withdrawals.remove(withdrawal_index(withdrawals, id))[withdrawal_index(
                    withdrawals.remove(withdrawal_index(withdrawals, id)),
                    other,
                )] == withdrawals[withdrawal_index(withdrawals, other)]
            },
{
    let idx = withdrawal_index(withdrawals, id);
    let after = withdrawals.remove(idx);
    assert forall|i: int| 0 <= i < after.len() implies (#[trigger] after[i]).withdrawal_id != id by {
        let oi = if i < idx { i } else { i + 1 };
        assert(after[i] == withdrawals[oi]);
        if oi < idx {
            assert(withdrawals[oi].withdrawal_id != withdrawals[idx].withdrawal_id);
        } else {
            assert(withdrawals[idx].withdrawal_id != withdrawals[oi].withdrawal_id);
        }
    }
    assert forall|other: Seq<char>| other != id && has_withdrawal(withdrawals, other) implies {
        &&& #[trigger] has_withdrawal(after, other)
        &&& after[withdrawal_index(after, other)] == withdrawals[withdrawal_index(withdrawals, other)]
    } by {
        let oi = withdrawal_index(withdrawals, other);
        let i = if oi < idx { oi } else { oi - 1 };
        assert(after[i] == withdrawals[oi]);
        let k = withdrawal_index(after, other);
        let ok = if k < idx { k } else { k + 1 };
        assert(after[k] == withdrawals[ok]);
        if ok < oi {
            assert(withdrawals[ok].withdrawal_id != withdrawals[oi].withdrawal_id);
        }
        if oi < ok {
            assert(withdrawals[oi].withdrawal_id != withdrawals[ok].withdrawal_id);
        }
    }
}

/// A spent nullifier stops a withdrawal at the first step. A pending
/// withdrawal whose nullifier is on record as spent is discarded there, for
/// the reason that the nullifier is used, before any proof is asked for:
/// the withdrawal is gone, and the other records, the pools and the
/// nullifiers are as they were.
pub proof fn lemma_spent_nullifier_discarded(s: EngineState, id: Seq<char>)
    requires
        withdrawals_in_order(s.withdrawals),
        s.in_flight is None,
        pending_withdrawal(s, id),
        is_spent(s, withdrawal_of(s, id).nullifier),
    ensures
        begin_withdrawal_spec(s, id) == (
            EngineState { withdrawals: s.withdrawals.remove(withdrawal_index(s.withdrawals, id)), ..s },
            WithdrawalStepKind::Discarded(DiscardReason::NullifierUsed),
        ),
        !has_withdrawal(begin_withdrawal_spec(s, id).0.withdrawals, id),
{
    lemma_discarded_is_gone(s.withdrawals, id);
}

/// A pending withdrawal that shares its nullifier with an authorized one is
/// discarded at the first step of the pipeline, for the reason that the
/// nullifier is used.
pub proof fn lemma_shared_nullifier_discarded(registry: TokenRegistry, s: EngineState, id: Seq<char>, other: int)
    requires
        engine_ok(registry, s),
        s.in_flight is None,
        pending_withdrawal(s, id),
        0 <= other < s.withdrawals.len(),
        s.withdrawals[other].authorized,
        s.withdrawals[other].nullifier == withdrawal_of(s, id).nullifier,
    ensures
        begin_withdrawal_spec(s, id).1 == WithdrawalStepKind::Discarded(DiscardReason::NullifierUsed),
        !has_withdrawal(begin_withdrawal_spec(s, id).0.withdrawals, id),
{
    assert(is_spent(s, s.withdrawals[other].nullifier));
    lemma_spent_nullifier_discarded(s, id);
}

/// Of two withdrawals with one nullifier, the first to be carried through
/// takes it. Two pending withdrawals share a nullifier that is not spent,
/// and the proofs of both would pass. The one whose pipeline is run first
/// goes through its three steps and is authorized if its token is
/// registered; the nullifier is spent either way. The other is then
/// discarded at its first step, for the reason that the nullifier is used,
/// before any proof is asked for: it is never authorized.
pub proof fn lemma_first_of_a_shared_nullifier_takes_it(
    registry: TokenRegistry,
    s: EngineState,
    first: Seq<char>,
    second: Seq<char>,
    now: i64,
)
    requires
        engine_ok(registry, s),
        s.in_flight is None,
        pending_withdrawal(s, first),
        pending_withdrawal(s, second),
        first != second,
        withdrawal_of(s, first).nullifier == withdrawal_of(s, second).nullifier,
        !is_spent(s, withdrawal_of(s, first).nullifier),
    ensures
        ({
            let begun = begin_withdrawal_spec(s, first);
            let checked = proof_checked_spec(begun.0, first, Some(true));
            let marked = nullifier_marked_spec(registry, checked.0, first, true, now);
            let w = withdrawal_of(s, first);
            &&& begun.1 == WithdrawalStepKind::VerifyProof
            &&& checked.1 == WithdrawalStepKind::MarkNullifierSpent
            &&& marked.1 == if registry.spec_token_for_chain(w.target_chain_id, w.token) is Some {
                WithdrawalStepKind::Authorized
            } else {
                WithdrawalStepKind::Failed
            }
            &&& marked.1 == WithdrawalStepKind::Authorized ==> has_withdrawal(marked.0.withdrawals, first)
                && withdrawal_of(marked.0, first).authorized
            &&& is_spent(marked.0, w.nullifier)
            &&& begin_withdrawal_spec(marked.0, second).1 == WithdrawalStepKind::Discarded(
                DiscardReason::NullifierUsed,
            )
            &&& !has_withdrawal(begin_withdrawal_spec(marked.0, second).0.withdrawals, second)
        }),
{
    let begun = begin_withdrawal_spec(s, first).0;
    let checked = proof_checked_spec(begun, first, Some(true)).0;
    let marked = nullifier_marked_spec(registry, checked, first, true, now).0;
    let w = withdrawal_of(s, first);
    let i1 = withdrawal_index(s.withdrawals, first);
    let i2 = withdrawal_index(s.withdrawals, second);
    assert(marked.withdrawals.len() == s.withdrawals.len());
    assert(marked.withdrawals[i2] == s.withdrawals[i2]);
    if registry.spec_token_for_chain(w.target_chain_id, w.token) is Some {
        let found = registry.spec_token_for_chain(w.target_chain_id, w.token)->0;
        let signature = withdrawal_signature(w.withdrawal_id, w.recipient, found.address@, w.amount, w.nullifier);
        lemma_with_authorized_order(s.withdrawals, first, signature);
        assert(marked.withdrawals[i1].withdrawal_id == first);
        lemma_withdrawal_index(marked.withdrawals, i1);
    }
    lemma_withdrawal_index(marked.withdrawals, i2);
    lemma_spent_nullifier_discarded(marked, second);
}

/// An invalid proof discards the withdrawal and nothing else. A pending
/// withdrawal whose nullifier is not spent goes on to the check of its
/// proof; when the proof is found invalid, the withdrawal is discarded for
/// that reason and is gone. No signature is made: every other withdrawal is
/// as it was, and so are the deposits, the pools and the nullifiers.
pub proof fn lemma_invalid_proof_discards(s: EngineState, id: Seq<char>)
    requires
        withdrawals_in_order(s.withdrawals),
        s.in_flight is None,
        pending_withdrawal(s, id),
        !is_spent(s, withdrawal_of(s, id).nullifier),
    ensures
        begin_withdrawal_spec(s, id).1 == WithdrawalStepKind::VerifyProof,
        proof_checked_spec(begin_withdrawal_spec(s, id).0, id, Some(false)) == (
            EngineState { withdrawals: s.withdrawals.remove(withdrawal_index(s.withdrawals, id)), ..s },
            WithdrawalStepKind::Discarded(DiscardReason::InvalidProof),
        ),
        !has_withdrawal(s.withdrawals.remove(withdrawal_index(s.withdrawals, id)), id),
        forall|other: Seq<char>|
            other != id && has_withdrawal(s.withdrawals, other) ==> {
                &&& #[trigger] has_withdrawal(s.withdrawals.remove(withdrawal_index(s.withdrawals, id)), other)
                &&& s.withdrawals.remove(withdrawal_index(s.withdrawals, id))[withdrawal_index(
                    s.withdrawals.remove(withdrawal_index(s.withdrawals, id)),
                    other,
                )] == s.withdrawals[withdrawal_index(s.withdrawals, other)]
            },
{
    lemma_discarded_is_gone(s.withdrawals, id);
}

/// The deposit pipeline carried through. A pending deposit whose
/// destination pool has enough available goes on to its note at the first
/// step. When the note is there, the last step moves the deposit's amount
/// from the pool's available funds to its locked funds, marks the deposit
/// processed with the note's commitment in hexadecimal (two digits for each
/// byte, so not empty unless the commitment is) and the settlement
/// transaction, so that it is no longer pending, and leaves every other
/// deposit and pool, the withdrawals and the nullifiers as they were.
pub proof fn lemma_deposit_carried_through(
    registry: TokenRegistry,
    s: EngineState,
    id: Seq<char>,
    note: (Seq<u8>, Seq<char>),
)
    requires
        engine_ok(registry, s),
        s.in_flight is None,
        pending_deposit(s, id),
        deposit_obstacle(registry, s, deposit_of(s, id)) is None,
    ensures
        begin_deposit_spec(registry, s, id).1 == DepositStepKind::CreateNote,
        complete_deposit_spec(registry, begin_deposit_spec(registry, s, id).0, id, Some(note)).1
            == DepositOutcomeKind::Processed,
        ({
            let d = deposit_of(s, id);
            let key = destination(registry, d.target_chain_id, d.token)->0;
            let t = complete_deposit_spec(registry, begin_deposit_spec(registry, s, id).0, id, Some(note)).0;
            &&& t.in_flight is None
            &&& t.withdrawals == s.withdrawals
            &&& t.nullifiers == s.nullifiers
            &&& t.pools.dom() == s.pools.dom()
            &&& t.pools[key].available == s.pools[key].available - d.amount
            &&& t.pools[key].locked == s.pools[key].locked + d.amount
            &&& forall|other: (u64, Seq<char>)|
                other != key && s.pools.dom().contains(other) ==> #[trigger] t.pools[other] == s.pools[other]
            &&& t.deposits.len() == s.deposits.len()
            &&& forall|i: int|
                0 <= i < s.deposits.len() && s.deposits[i].deposit_id != id ==> #[trigger] t.deposits[i]
                    == s.deposits[i]
            &&& has_deposit(t.deposits, id)
            &&& deposit_of(t, id) == processed_deposit(d, spec_hex_encode(note.0), note.1)
            &&& deposit_of(t, id).note_commitment matches Some(text) && text.len() == 2 * note.0.len()
            &&& deposit_of(t, id).zcash_txid == Some(note.1)
            &&& !pending_deposit(t, id)
        }),
{
    let d = deposit_of(s, id);
    let key = destination(registry, d.target_chain_id, d.token)->0;
    let begun = begin_deposit_spec(registry, s, id).0;
    let t = complete_deposit_spec(registry, begun, id, Some(note)).0;
    let idx = deposit_index(s.deposits, id);
    assert(filed_under(key, s.pools[key]));
    assert(t.pools.dom() =~= s.pools.dom());
    assert(t.deposits[idx].deposit_id == id);
    lemma_with_processed_order(s.deposits, id, spec_hex_encode(note.0), note.1);
    lemma_deposit_index(t.deposits, idx);
}

/// No double authorization. Once the last step has authorized a withdrawal,
/// the pipeline does not take it up again: its first step answers that no
/// such withdrawal is pending, and changes nothing. And while a withdrawal
/// is in flight, a second start of the pipeline is refused and changes
/// nothing.
pub proof fn lemma_no_double_authorization(
    registry: TokenRegistry,
    s: EngineState,
    id: Seq<char>,
    now: i64,
)
    requires
        engine_ok(registry, s),
    ensures
        nullifier_marked_spec(registry, s, id, true, now).1 == WithdrawalStepKind::Authorized ==> {
            let t = nullifier_marked_spec(registry, s, id, true, now).0;
            &&& has_withdrawal(t.withdrawals, id)
            &&& withdrawal_of(t, id).authorized
            &&& begin_withdrawal_spec(t, id) == (t, WithdrawalStepKind::NotPending)
        },
        begin_withdrawal_spec(s, id).1 == WithdrawalStepKind::VerifyProof ==> begin_withdrawal_spec(
            begin_withdrawal_spec(s, id).0,
            id,
        ) == (begin_withdrawal_spec(s, id).0, WithdrawalStepKind::Busy),
{
    if nullifier_marked_spec(registry, s, id, true, now).1 == WithdrawalStepKind::Authorized {
        let t = nullifier_marked_spec(registry, s, id, true, now).0;
        let w = withdrawal_of(s, id);
        let idx = withdrawal_index(s.withdrawals, id);
        let found = registry.spec_token_for_chain(w.target_chain_id, w.token)->0;
        let signature = withdrawal_signature(
            w.withdrawal_id,
            w.recipient,
            found.address@,
            w.amount,
            w.nullifier,
        );
        lemma_with_authorized_order(s.withdrawals, id, signature);
        assert(t.withdrawals[idx].withdrawal_id == id);
        lemma_withdrawal_index(t.withdrawals, idx);
    }
}

/// An authorization is final. Whatever event follows, an authorized
/// withdrawal stays stored and authorized under the same signature.
pub proof fn lemma_authorization_is_final(registry: TokenRegistry, s: EngineState, event: EngineEvent, id: Seq<char>)
    requires
        engine_ok(registry, s),
        has_withdrawal(s.withdrawals, id),
        withdrawal_of(s, id).authorized,
    ensures
        has_withdrawal(engine_step(registry, s, event).withdrawals, id),
        withdrawal_of(engine_step(registry, s, event), id) == withdrawal_of(s, id),
{
    let t = engine_step(registry, s, event);
    let idx = withdrawal_index(s.withdrawals, id);
    lemma_withdrawal_index(s.withdrawals, idx);
    lemma_step_preserves(registry, s, event);
    let place = match event {
        EngineEvent::NotifyWithdrawal(w0) => {
            let w = WithdrawalView { authorized: false, auth_signature: None, ..w0 };
            if !has_withdrawal(s.withdrawals, w.withdrawal_id) && insertion_point(
                withdrawal_times(s.withdrawals),
                w.created_at,
            ) <= idx {
                lemma_store_withdrawal_order(s.withdrawals, w);
                idx + 1
            } else {
                if !has_withdrawal(s.withdrawals, w.withdrawal_id) {
                    lemma_store_withdrawal_order(s.withdrawals, w);
                }
                idx
            }
        },
        EngineEvent::BeginWithdrawal(other) => {
            if s.in_flight is None && pending_withdrawal(s, other) && is_spent(s, withdrawal_of(s, other).nullifier)
                && withdrawal_index(s.withdrawals, other) < idx {
                idx - 1
            } else {
                idx
            }
        },
        EngineEvent::ProofChecked(other, verdict) => {
            if s.in_flight == Some(
                InFlightView { id: other, phase: Phase::VerifyingProof },
            ) && verdict == Some(false) && withdrawal_index(s.withdrawals, other) < idx {
                idx - 1
            } else {
                idx
            }
        },
        _ => idx,
    };
    assert(0 <= place < t.withdrawals.len());
    assert(t.withdrawals[place] == s.withdrawals[idx]);
    lemma_withdrawal_index(t.withdrawals, place);
}

/// The pipelines conserve liquidity. No notification and no step of a
/// pipeline makes or drops a pool, and none changes the sum of a pool's
/// available and locked funds: a deposit moves funds from available to
/// locked, a withdrawal moves them back.
pub proof fn lemma_step_conserves_liquidity(
    registry: TokenRegistry,
    s: EngineState,
    event: EngineEvent,
    key: (u64, Seq<char>),
)
    requires
        engine_ok(registry, s),
    ensures
        engine_step(registry, s, event).pools.dom() == s.pools.dom(),
        s.pools.dom().contains(key) ==> engine_step(registry, s, event).pools[key].total() == s.pools[key].total(),
{
    let t = engine_step(registry, s, event);
    match event {
        EngineEvent::CompleteDeposit(id, note) => {
            if s.in_flight == Some(InFlightView { id, phase: Phase::CreatingNote }) && note is Some {
                let d = deposit_of(s, id);
                let target = destination(registry, d.target_chain_id, d.token)->0;
                assert(filed_under(target, s.pools[target]));
                lemma_lock_release_keep_total(s.pools[target], d.amount);
                assert(t.pools.dom() =~= s.pools.dom());
            }
        },
        EngineEvent::NullifierMarked(id, marked, now) => {
            if s.in_flight == Some(InFlightView { id, phase: Phase::MarkingNullifier }) && marked {
                let w = withdrawal_of(s, id);
                if registry.spec_token_for_chain(w.target_chain_id, w.token) is Some {
                    let found = registry.spec_token_for_chain(w.target_chain_id, w.token)->0;
                    let target = (w.target_chain_id, found.address@);
                    if s.pools.dom().contains(target) {
                        assert(filed_under(target, s.pools[target]));
                        lemma_lock_release_keep_total(s.pools[target], w.amount);
                        assert(t.pools.dom() =~= s.pools.dom());
                    }
                }
            }
        },
        _ => {},
    }
}

/// Liquidity is conserved over every run: whatever notifications and
/// pipeline steps the engine goes through, the pools stay the same pools,
/// each with the sum of funds it had.
pub proof fn lemma_run_conserves_liquidity(
    registry: TokenRegistry,
    s: EngineState,
    events: Seq<EngineEvent>,
    key: (u64, Seq<char>),
)
    requires
        engine_ok(registry, s),
    ensures
        engine_run(registry, s, events).pools.dom() == s.pools.dom(),
        s.pools.dom().contains(key) ==> engine_run(registry, s, events).pools[key].total() == s.pools[key].total(),
    decreases events.len(),
{
    if events.len() > 0 {
        let before = engine_run(registry, s, events.drop_last());
        lemma_run_conserves_liquidity(registry, s, events.drop_last(), key);
        lemma_nullifier_exclusivity(registry, s, events.drop_last());
        lemma_step_conserves_liquidity(registry, before, events.last(), key);
    }
}

} // verus!
