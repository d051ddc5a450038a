//! The coordinator's RPC surface: what relayers send and what they get back.
//!
//! Each handler takes the engine and a request as plain values and returns
//! the response. Serving them over HTTP is the caller's business.

use vstd::prelude::*;
use crate::clock::{clock_reading, unix_now};
use crate::coordinator::database::{
    deposit_index, has_deposit, stats_of, Deposit, DepositView, Withdrawal, WithdrawalView,
};
use crate::coordinator::engine::{store_deposit_spec, store_withdrawal_spec, Coordinator};
use crate::seqs::{lemma_filter_empty, lemma_filter_step, lemma_take_all};
use crate::text::{clone_opt_string, opt_chars};

verus! {

// ============ Request/Response Types ============
#[derive(Debug)]
pub struct DepositNotification {
    pub deposit_id: String,
    pub source_chain_id: u64,
    pub target_chain_id: u64,
    pub sender: String,
    pub token: String,
    pub amount: u64,
    pub recipient: Vec<u8>,
    pub zcash_address: Vec<u8>,
    pub timestamp: u64,
}

#[derive(Debug)]
pub struct WithdrawalNotification {
    pub withdrawal_id: String,
    pub target_chain_id: u64,
    pub recipient: String,
    pub token: String,
    pub amount: u64,
    pub nullifier: Vec<u8>,
    pub zcash_proof: Vec<u8>,
    pub merkle_root: Vec<u8>,
}

#[derive(Debug)]
pub struct AuthorizedWithdrawal {
    pub withdrawal_id: String,
    pub target_chain_id: u64,
    pub recipient: String,
    pub token: String,
    pub amount: u64,
    pub nullifier: Vec<u8>,
    pub authorization_signature: Vec<u8>,
}

#[derive(Debug)]
pub struct StatusResponse {
    pub status: String,
}

#[derive(Debug)]
pub struct DepositStatusResponse {
    pub deposit_id: String,
    pub processed: bool,
    pub zcash_txid: Option<String>,
    pub note_commitment: Option<String>,
}

#[derive(Debug, Clone, Copy, PartialEq, Eq, Structural)]
pub struct LiquidityCheckResponse {
    pub available: bool,
    pub current_liquidity: u64,
}

#[derive(Debug)]
pub struct LiquidityCheckRequest {
    pub chain_id: u64,
    pub token: String,
    pub amount: u64,
}

#[derive(Debug)]
pub struct HealthResponse {
    pub status: String,
    pub version: String,
    pub zcash_synced: bool,
}

#[derive(Debug, Clone, Copy, PartialEq, Eq, Structural)]
pub struct StatsResponse {
    pub total_deposits: u64,
    pub total_withdrawals: u64,
    pub total_volume: u64,
    pub active_deposits: u64,
}

/// An authorized withdrawal as a mathematical value.
pub struct AuthorizedWithdrawalView {
    pub withdrawal_id: Seq<char>,
    pub target_chain_id: u64,
    pub recipient: Seq<char>,
    pub token: Seq<char>,
    pub amount: u64,
    pub nullifier: Seq<u8>,
    pub authorization_signature: Seq<u8>,
}

impl View for AuthorizedWithdrawal {
    type V = AuthorizedWithdrawalView;

    open spec fn view(&self) -> AuthorizedWithdrawalView {
        AuthorizedWithdrawalView {
            withdrawal_id: self.withdrawal_id@,
            target_chain_id: self.target_chain_id,
            recipient: self.recipient@,
            token: self.token@,
            amount: self.amount,
            nullifier: self.nullifier@,
            authorization_signature: self.authorization_signature@,
        }
    }
}

/// The deposit that a notification makes: unprocessed, created at the
/// notification's time stamp.
pub open spec fn notified_deposit(notification: DepositNotification) -> DepositView {
    DepositView {
        deposit_id: notification.deposit_id@,
        source_chain_id: notification.source_chain_id,
        target_chain_id: notification.target_chain_id,
        sender: notification.sender@,
        recipient: notification.recipient@,
        token: notification.token@,
        amount: notification.amount,
        zcash_address: notification.zcash_address@,
        processed: false,
        zcash_txid: None,
        note_commitment: None,
        created_at: notification.timestamp as i64,
    }
}

/// The withdrawal that a notification received at `now` makes: unauthorized
/// and without a signature.
pub open spec fn notified_withdrawal(notification: WithdrawalNotification, now: i64) -> WithdrawalView {
    WithdrawalView {
        withdrawal_id: notification.withdrawal_id@,
        target_chain_id: notification.target_chain_id,
        recipient: notification.recipient@,
        token: notification.token@,
        amount: notification.amount,
        nullifier: notification.nullifier@,
        zcash_proof: notification.zcash_proof@,
        merkle_root: notification.merkle_root@,
        authorized: false,
        auth_signature: None,
        created_at: now,
    }
}

/// A withdrawal that is ready for a relayer: authorized, with its signature.
pub open spec fn ready_for_relay(w: WithdrawalView) -> bool {
    w.authorized && w.auth_signature is Some
}

/// What a relayer is told of a withdrawal that is ready for it.
pub open spec fn relay_view(w: WithdrawalView) -> AuthorizedWithdrawalView {
    AuthorizedWithdrawalView {
        withdrawal_id: w.withdrawal_id,
        target_chain_id: w.target_chain_id,
        recipient: w.recipient,
        token: w.token,
        amount: w.amount,
        nullifier: w.nullifier,
        authorization_signature: w.auth_signature->0,
    }
}

/// The views of a list of authorized withdrawals.
pub open spec fn relay_views(list: Seq<AuthorizedWithdrawal>) -> Seq<AuthorizedWithdrawalView> {
    list.map_values(|w: AuthorizedWithdrawal| w@)
}

fn queued() -> (response: StatusResponse)
    ensures
        response.status@ == "queued"@,
{
    StatusResponse { status: "queued".to_owned() }
}

// ============ Handlers ============
pub fn health_handler() -> (response: HealthResponse)
    ensures
        response.status@ == "ok"@,
        response.version@ == crate::VERSION@,
        response.zcash_synced,
{
    HealthResponse { status: "ok".to_owned(), version: crate::VERSION.to_owned(), zcash_synced: true }
}

pub fn stats_handler(coordinator: &Coordinator) -> (response: StatsResponse)
    requires
        coordinator.wf(),
    ensures
        response.total_deposits == stats_of(coordinator@.deposits, coordinator@.withdrawals).total_deposits,
        response.total_withdrawals == stats_of(coordinator@.deposits, coordinator@.withdrawals).total_withdrawals,
        response.total_volume == stats_of(coordinator@.deposits, coordinator@.withdrawals).total_volume,
        response.active_deposits == stats_of(coordinator@.deposits, coordinator@.withdrawals).active_deposits,
{
    let stats = coordinator.stats();
    StatsResponse {
        total_deposits: stats.total_deposits,
        total_withdrawals: stats.total_withdrawals,
        total_volume: stats.total_volume,
        active_deposits: stats.active_deposits,
    }
}

/// Relayer notifies coordinator about a new deposit. The deposit is queued
/// for processing; a deposit that is queued or processed already stays as
/// it is. The answer is the same either way.
pub fn notify_deposit_handler(coordinator: &mut Coordinator, notification: DepositNotification) -> (response:
    StatusResponse)
    requires
        old(coordinator).wf(),
    ensures
        final(coordinator).wf(),
        final(coordinator).registry() == old(coordinator).registry(),
        final(coordinator).shielded_notes() == old(coordinator).shielded_notes(),
        final(coordinator).zcash_state() == old(coordinator).zcash_state(),
        final(coordinator).liquidity_settings() == old(coordinator).liquidity_settings(),
        final(coordinator).pool_order() == old(coordinator).pool_order(),
        final(coordinator)@ == store_deposit_spec(old(coordinator)@, notified_deposit(notification)),
        response.status@ == "queued"@,
{
    let deposit = Deposit {
        deposit_id: notification.deposit_id,
        source_chain_id: notification.source_chain_id,
        target_chain_id: notification.target_chain_id,
        sender: notification.sender,
        recipient: notification.recipient,
        token: notification.token,
        amount: notification.amount,
        zcash_address: notification.zcash_address,
        processed: false,
        zcash_txid: None,
        note_commitment: None,
        created_at: #[verifier::truncate] (notification.timestamp as i64),
    };
    let _ = coordinator.store_deposit(deposit);
    queued()
}

/// The status of a deposit, or nothing for an unknown id.
pub fn deposit_status_handler(coordinator: &Coordinator, deposit_id: &str) -> (response: Option<
    DepositStatusResponse,
>)
    requires
        coordinator.wf(),
    ensures
        match response {
            Some(status) => {
                let d = coordinator@.deposits[deposit_index(coordinator@.deposits, deposit_id@)];
                &&& has_deposit(coordinator@.deposits, deposit_id@)
                &&& status.deposit_id@ == deposit_id@
                &&& status.processed == d.processed
                &&& opt_chars(status.zcash_txid) == d.zcash_txid
                &&& opt_chars(status.note_commitment) == d.note_commitment
            },
            None => !has_deposit(coordinator@.deposits, deposit_id@),
        },
{
    match coordinator.db().get_deposit(deposit_id) {
        Some(deposit) => Some(
            DepositStatusResponse {
                deposit_id: deposit.deposit_id.clone(),
                processed: deposit.processed,
                zcash_txid: clone_opt_string(&deposit.zcash_txid),
                note_commitment: clone_opt_string(&deposit.note_commitment),
            },
        ),
        None => None,
    }
}

/// Queues a withdrawal that was notified at the time `now`. A withdrawal
/// that is stored already stays as it is. The answer is the same either way.
pub fn notify_withdrawal_at(coordinator: &mut Coordinator, notification: WithdrawalNotification, now: i64) -> (response:
    StatusResponse)
    requires
        old(coordinator).wf(),
    ensures
        final(coordinator).wf(),
        final(coordinator).registry() == old(coordinator).registry(),
        final(coordinator).shielded_notes() == old(coordinator).shielded_notes(),
        final(coordinator).zcash_state() == old(coordinator).zcash_state(),
        final(coordinator).liquidity_settings() == old(coordinator).liquidity_settings(),
        final(coordinator).pool_order() == old(coordinator).pool_order(),
        final(coordinator)@ == store_withdrawal_spec(old(coordinator)@, notified_withdrawal(notification, now)),
        response.status@ == "queued"@,
{
    let withdrawal = Withdrawal {
        withdrawal_id: notification.withdrawal_id,
        target_chain_id: notification.target_chain_id,
        recipient: notification.recipient,
        token: notification.token,
        amount: notification.amount,
        nullifier: notification.nullifier,
        zcash_proof: notification.zcash_proof,
        merkle_root: notification.merkle_root,
        authorized: false,
        auth_signature: None,
        created_at: now,
    };
    let _ = coordinator.store_withdrawal(withdrawal);
    queued()
}

/// Relayer notifies coordinator about a withdrawal request. The withdrawal
/// is queued as created at the time of the call, whatever the clock says.
pub fn notify_withdrawal_handler(coordinator: &mut Coordinator, notification: WithdrawalNotification) -> (response:
    StatusResponse)
    requires
        old(coordinator).wf(),
    ensures
        exists|now: i64|
            #![trigger clock_reading(now)]
            {
                &&& clock_reading(now)
                &&& final(coordinator).wf()
                &&& final(coordinator).registry() == old(coordinator).registry()
                &&& final(coordinator).shielded_notes() == old(coordinator).shielded_notes()
                &&& final(coordinator).zcash_state() == old(coordinator).zcash_state()
                &&& final(coordinator).liquidity_settings() == old(coordinator).liquidity_settings()
                &&& final(coordinator).pool_order() == old(coordinator).pool_order()
                &&& final(coordinator)@ == store_withdrawal_spec(old(coordinator)@, notified_withdrawal(notification, now))
                &&& response.status@ == "queued"@
            },
{
    let now = unix_now();
    let response = notify_withdrawal_at(coordinator, notification, now);
    assert(clock_reading(now));
    response
}

/// Relayer queries for authorized withdrawals ready to execute: the
/// authorized withdrawals that have a signature, in creation order.
pub fn authorized_withdrawals_handler(coordinator: &Coordinator) -> (results: Vec<AuthorizedWithdrawal>)
    requires
        coordinator.wf(),
    ensures
        relay_views(results@) == coordinator@.withdrawals.filter(|w: WithdrawalView| ready_for_relay(w)).map_values(
            |w: WithdrawalView| relay_view(w),
        ),
{
    let db = coordinator.db();
    let ghost all = coordinator@.withdrawals;
    let ghost pred = |w: WithdrawalView| ready_for_relay(w);
    let ghost tell = |w: WithdrawalView| relay_view(w);
    let mut results: Vec<AuthorizedWithdrawal> = Vec::new();
    let n = db.withdrawal_count();
    let mut i: usize = 0;
    proof {
        lemma_filter_empty(all, pred);
        assert(relay_views(results@) =~= all.take(0).filter(pred).map_values(tell));
    }
    while i < n
        invariant
            n == all.len(),
            all == db.withdrawals(),
            i <= n,
            pred == (|w: WithdrawalView| ready_for_relay(w)),
            tell == (|w: WithdrawalView| relay_view(w)),
            relay_views(results@) == all.take(i as int).filter(pred).map_values(tell),
        decreases n - i,
    {
        let w = db.withdrawal_at(i);
        let ghost before = results@;
        proof {
            lemma_filter_step(all, pred, i as int);
        }
        if w.authorized {
            match &w.auth_signature {
                Some(signature) => {
                    results.push(
                        AuthorizedWithdrawal {
                            withdrawal_id: w.withdrawal_id.clone(),
                            target_chain_id: w.target_chain_id,
                            recipient: w.recipient.clone(),
                            token: w.token.clone(),
                            amount: w.amount,
                            nullifier: w.nullifier.clone(),
                            authorization_signature: signature.clone(),
                        },
                    );
                    assert(relay_views(results@) =~= relay_views(before).push(relay_view(all[i as int])));
                    assert(all.take(i as int).filter(pred).push(all[i as int]).map_values(tell) =~= all.take(
                        i as int,
                    ).filter(pred).map_values(tell).push(relay_view(all[i as int])));
                },
                None => {},
            }
        }
        i += 1;
    }
    proof {
        lemma_take_all(all);
    }
    results
}

/// Whether a pool holds `amount` in available funds, and how much it holds.
/// An unknown pool holds nothing.
pub fn check_liquidity_handler(coordinator: &Coordinator, request: &LiquidityCheckRequest) -> (response:
    LiquidityCheckResponse)
    requires
        coordinator.wf(),
    ensures
        response == if coordinator@.pools.dom().contains((request.chain_id, request.token@)) {
            LiquidityCheckResponse {
                available: coordinator@.pools[(request.chain_id, request.token@)].available >= request.amount,
                current_liquidity: coordinator@.pools[(request.chain_id, request.token@)].available,
            }
        } else {
            LiquidityCheckResponse { available: false, current_liquidity: 0 }
        },
{
    match coordinator.liquidity_manager().get_pool(request.chain_id, request.token.as_str()) {
        Some(pool) => LiquidityCheckResponse {
            available: pool.available >= request.amount,
            current_liquidity: pool.available,
        },
        None => LiquidityCheckResponse { available: false, current_liquidity: 0 },
    }
}

} // verus!
