//! The gateway on Solana: two-step withdrawal with a coordinator signature.
//!
//! The gateway's state and its records are accounts; a call gets the
//! accounts it works on. Token transfers and the recovery of the signing
//! key are the chain's business: a call says which transfer it wants, and
//! is told whether a key was recovered from the signature.

use vstd::prelude::*;
use vstd::bytes::{spec_u64_to_le_bytes, u64_to_le_bytes};
use crate::hashing::{keccak256, spec_keccak256};
use crate::text::bytes_eq;

verus! {

/// The least deposit.
pub const MIN_DEPOSIT: u64 = 1_000_000;

#[derive(Debug)]
pub struct GatewayState {
    pub authority: [u8; 32],
    pub coordinator: [u8; 32],
    pub total_locked: u64,
    pub total_withdrawn: u64,
    pub deposit_count: u64,
    pub withdrawal_count: u64,
    pub paused: bool,
    pub bump: u8,
}

#[derive(Debug)]
pub struct DepositInfo {
    pub deposit_id: [u8; 32],
    pub sender: [u8; 32],
    pub mint: [u8; 32],
    pub amount: u64,
    pub target_chain_id: u64,
    pub recipient: [u8; 32],
    pub zcash_address: [u8; 32],
    pub timestamp: i64,
    pub processed: bool,
}

#[derive(Debug)]
pub struct WithdrawalRequestInfo {
    pub withdrawal_id: [u8; 32],
    pub recipient: [u8; 32],
    pub mint: [u8; 32],
    pub amount: u64,
    pub nullifier: [u8; 32],
    pub timestamp: i64,
    pub executed: bool,
}

#[derive(Debug)]
pub struct NullifierAccount {
    pub nullifier: [u8; 32],
    pub used: bool,
    pub timestamp: i64,
}

// ============ Events ============
#[derive(Debug)]
pub struct TokensLocked {
    pub deposit_id: [u8; 32],
    pub sender: [u8; 32],
    pub mint: [u8; 32],
    pub amount: u64,
    pub target_chain_id: u64,
    pub recipient: [u8; 32],
    pub zcash_address: [u8; 32],
    pub timestamp: i64,
}

#[derive(Debug)]
pub struct WithdrawalRequested {
    pub withdrawal_id: [u8; 32],
    pub recipient: [u8; 32],
    pub mint: [u8; 32],
    pub amount: u64,
    pub nullifier: [u8; 32],
    pub zcash_proof: Vec<u8>,
    pub merkle_root: [u8; 32],
    pub timestamp: i64,
}

#[derive(Debug)]
pub struct TokensReleased {
    pub withdrawal_id: [u8; 32],
    pub recipient: [u8; 32],
    pub mint: [u8; 32],
    pub amount: u64,
    pub nullifier: [u8; 32],
    pub timestamp: i64,
}

#[derive(Debug)]
pub struct CoordinatorUpdated {
    pub old_coordinator: [u8; 32],
    pub new_coordinator: [u8; 32],
    pub timestamp: i64,
}

#[derive(Debug)]
pub struct EmergencyPause {
    pub triggered_by: [u8; 32],
    pub timestamp: i64,
}

#[derive(Debug)]
pub struct LiquidityAdded {
    pub provider: [u8; 32],
    pub mint: [u8; 32],
    pub amount: u64,
    pub timestamp: i64,
}

/// A token transfer that a call wants made: into the vault of the mint
/// from the party's account, or out of it to the party's.
#[derive(Debug)]
pub struct TokenTransfer {
    pub into_vault: bool,
    pub party: [u8; 32],
    pub mint: [u8; 32],
    pub amount: u64,
}

// ============ Errors ============
#[derive(Debug, Clone, Copy, PartialEq, Eq, Structural)]
pub enum ErrorCode {
    GatewayPaused,
    InvalidAmount,
    AmountTooSmall,
    NullifierUsed,
    InvalidCoordinator,
    InvalidSignature,
    InvalidWithdrawalId,
    AlreadyExecuted,
    Overflow,
    Underflow,
}

impl GatewayState {
    pub const SIZE: usize = 32 + 32 + 8 + 8 + 8 + 8 + 1 + 1;
}

impl DepositInfo {
    pub const SIZE: usize = 32 + 32 + 32 + 8 + 8 + 32 + 32 + 8 + 1;
}

impl WithdrawalRequestInfo {
    pub const SIZE: usize = 32 + 32 + 32 + 8 + 32 + 8 + 1;
}

impl NullifierAccount {
    pub const SIZE: usize = 32 + 1 + 8;
}

/// The id of a deposit: the Keccak-256 digest of the sender, the mint, the
/// amount, the target chain, the recipient and the number of deposits so
/// far, the numbers with the least significant byte first.
pub open spec fn deposit_id_of(
    sender: Seq<u8>,
    mint: Seq<u8>,
    amount: u64,
    target_chain_id: u64,
    recipient: Seq<u8>,
    nonce: u64,
) -> Seq<u8> {
    spec_keccak256(
        sender + mint + spec_u64_to_le_bytes(amount) + spec_u64_to_le_bytes(target_chain_id) + recipient
            + spec_u64_to_le_bytes(nonce),
    )
}

/// The id of a withdrawal: the Keccak-256 digest of the recipient, the
/// mint, the amount, the nullifier and the number of withdrawals so far.
pub open spec fn withdrawal_id_of(recipient: Seq<u8>, mint: Seq<u8>, amount: u64, nullifier: Seq<u8>, nonce: u64) -> Seq<
    u8,
> {
    spec_keccak256(recipient + mint + spec_u64_to_le_bytes(amount) + nullifier + spec_u64_to_le_bytes(nonce))
}

/// The digest that the coordinator's signature is over: the Keccak-256
/// digest of the withdrawal id, the recipient, the amount with the least
/// significant byte first, and the nullifier.
pub open spec fn signed_hash_of(withdrawal_id: Seq<u8>, recipient: Seq<u8>, amount: u64, nullifier: Seq<u8>) -> Seq<u8> {
    spec_keccak256(withdrawal_id + recipient + spec_u64_to_le_bytes(amount) + nullifier)
}

fn to_array(bytes: &Vec<u8>) -> (array: [u8; 32])
    requires
        bytes@.len() == 32,
    ensures
        array@ == bytes@,
{
    let mut array = [0u8; 32];
    let mut i: usize = 0;
    while i < 32
        invariant
            i <= 32,
            bytes@.len() == 32,
            forall|j: int| 0 <= j < i ==> array@[j] == bytes@[j],
        decreases 32 - i,
    {
        array[i] = bytes[i];
        i += 1;
    }
    assert(array@ =~= bytes@);
    array
}

pub fn generate_deposit_id(
    sender: &[u8; 32],
    mint: &[u8; 32],
    amount: u64,
    target_chain_id: u64,
    recipient: [u8; 32],
    nonce: u64,
) -> (id: [u8; 32])
    ensures
        id@ == deposit_id_of(sender@, mint@, amount, target_chain_id, recipient@, nonce),
{
    let mut data: Vec<u8> = Vec::new();
    data.extend_from_slice(sender.as_slice());
    data.extend_from_slice(mint.as_slice());
    let amount_bytes = u64_to_le_bytes(amount);
    data.extend_from_slice(amount_bytes.as_slice());
    let chain_bytes = u64_to_le_bytes(target_chain_id);
    data.extend_from_slice(chain_bytes.as_slice());
    data.extend_from_slice(recipient.as_slice());
    let nonce_bytes = u64_to_le_bytes(nonce);
    data.extend_from_slice(nonce_bytes.as_slice());
    assert(data@ =~= sender@ + mint@ + spec_u64_to_le_bytes(amount) + spec_u64_to_le_bytes(target_chain_id)
        + recipient@ + spec_u64_to_le_bytes(nonce));
    let hash = keccak256(data.as_slice());
    to_array(&hash)
}

pub fn generate_withdrawal_id(recipient: &[u8; 32], mint: &[u8; 32], amount: u64, nullifier: [u8; 32], nonce: u64) -> (id:
    [u8; 32])
    ensures
        id@ == withdrawal_id_of(recipient@, mint@, amount, nullifier@, nonce),
{
    let mut data: Vec<u8> = Vec::new();
    data.extend_from_slice(recipient.as_slice());
    data.extend_from_slice(mint.as_slice());
    let amount_bytes = u64_to_le_bytes(amount);
    data.extend_from_slice(amount_bytes.as_slice());
    data.extend_from_slice(nullifier.as_slice());
    let nonce_bytes = u64_to_le_bytes(nonce);
    data.extend_from_slice(nonce_bytes.as_slice());
    assert(data@ =~= recipient@ + mint@ + spec_u64_to_le_bytes(amount) + nullifier@ + spec_u64_to_le_bytes(nonce));
    let hash = keccak256(data.as_slice());
    to_array(&hash)
}

/// The digest that the coordinator's signature on a withdrawal is over.
pub fn signed_hash(withdrawal_id: [u8; 32], recipient: [u8; 32], amount: u64, nullifier: [u8; 32]) -> (hash: [u8; 32])
    ensures
        hash@ == signed_hash_of(withdrawal_id@, recipient@, amount, nullifier@),
{
    let mut data: Vec<u8> = Vec::new();
    data.extend_from_slice(withdrawal_id.as_slice());
    data.extend_from_slice(recipient.as_slice());
    let amount_bytes = u64_to_le_bytes(amount);
    data.extend_from_slice(amount_bytes.as_slice());
    data.extend_from_slice(nullifier.as_slice());
    assert(data@ =~= withdrawal_id@ + recipient@ + spec_u64_to_le_bytes(amount) + nullifier@);
    let hash = keccak256(data.as_slice());
    to_array(&hash)
}

/// Checks the coordinator's signature on a withdrawal, given the key that
/// the chain recovered from the signature over the withdrawal's digest: a
/// key of 64 bytes must have been recovered. The key is not compared with
/// the coordinator's.
pub fn verify_coordinator_signature(recovered_key: &Option<Vec<u8>>, _expected_coordinator: [u8; 32]) -> (r: Result<
    (),
    ErrorCode,
>)
    ensures
        r is Ok <==> (recovered_key matches Some(key) && key@.len() == 64),
        r is Err ==> r->Err_0 == ErrorCode::InvalidSignature,
{
    match recovered_key {
        Some(key) => if key.len() == 64 {
            Ok(())
        } else {
            Err(ErrorCode::InvalidSignature)
        },
        None => Err(ErrorCode::InvalidSignature),
    }
}

/// A new gateway under the authority, with the coordinator's key.
pub fn initialize(authority: [u8; 32], coordinator_pubkey: [u8; 32], bump: u8) -> (gateway: GatewayState)
    ensures
        gateway.authority == authority,
        gateway.coordinator == coordinator_pubkey,
        gateway.total_locked == 0,
        gateway.total_withdrawn == 0,
        gateway.deposit_count == 0,
        gateway.withdrawal_count == 0,
        !gateway.paused,
        gateway.bump == bump,
{
    GatewayState {
        authority,
        coordinator: coordinator_pubkey,
        total_locked: 0,
        total_withdrawn: 0,
        deposit_count: 0,
        withdrawal_count: 0,
        paused: false,
        bump,
    }
}

/// Why a deposit is refused, if it is: the first of these that holds.
pub open spec fn deposit_refusal(gateway: GatewayState, amount: u64) -> Option<ErrorCode> {
    if gateway.paused {
        Some(ErrorCode::GatewayPaused)
    } else if amount == 0 {
        Some(ErrorCode::InvalidAmount)
    } else if amount < MIN_DEPOSIT {
        Some(ErrorCode::AmountTooSmall)
    } else if gateway.total_locked + amount > u64::MAX || gateway.deposit_count == u64::MAX {
        Some(ErrorCode::Overflow)
    } else {
        None
    }
}

/// Deposit: locks tokens of the user and files the deposit in its account.
/// A refused deposit leaves every account as it was.
pub fn deposit(
    gateway: &mut GatewayState,
    deposit_account: &mut DepositInfo,
    user: [u8; 32],
    mint: [u8; 32],
    amount: u64,
    target_chain_id: u64,
    recipient: [u8; 32],
    zcash_address: [u8; 32],
    now: i64,
) -> (r: Result<(TokensLocked, TokenTransfer), ErrorCode>)
    ensures
        final(gateway).authority == old(gateway).authority,
        final(gateway).coordinator == old(gateway).coordinator,
        final(gateway).paused == old(gateway).paused,
        final(gateway).bump == old(gateway).bump,
        final(gateway).total_withdrawn == old(gateway).total_withdrawn,
        final(gateway).withdrawal_count == old(gateway).withdrawal_count,
        match r {
            Err(error) => deposit_refusal(*old(gateway), amount) == Some(error) && *final(gateway) == *old(gateway)
                && *final(deposit_account) == *old(deposit_account),
            Ok((event, transfer)) => {
                let id = deposit_id_of(user@, mint@, amount, target_chain_id, recipient@, old(gateway).deposit_count);
                &&& deposit_refusal(*old(gateway), amount) is None
                &&& final(gateway).total_locked == old(gateway).total_locked + amount
                &&& final(gateway).deposit_count == old(gateway).deposit_count + 1
                &&& final(deposit_account).deposit_id@ == id
                &&& final(deposit_account).sender == user
                &&& final(deposit_account).mint == mint
                &&& final(deposit_account).amount == amount
                &&& final(deposit_account).target_chain_id == target_chain_id
                &&& final(deposit_account).recipient == recipient
                &&& final(deposit_account).zcash_address == zcash_address
                &&& final(deposit_account).timestamp == now
                &&& !final(deposit_account).processed
                &&& event.deposit_id@ == id
                &&& event.sender == user
                &&& event.mint == mint
                &&& event.amount == amount
                &&& event.target_chain_id == target_chain_id
                &&& event.recipient == recipient
                &&& event.zcash_address == zcash_address
                &&& event.timestamp == now
                &&& transfer.into_vault
                &&& transfer.party == user
                &&& transfer.mint == mint
                &&& transfer.amount == amount
            },
        },
{
    if gateway.paused {
        return Err(ErrorCode::GatewayPaused);
    }
    if amount == 0 {
        return Err(ErrorCode::InvalidAmount);
    }
    if amount < MIN_DEPOSIT {
        return Err(ErrorCode::AmountTooSmall);
    }
    let total_locked = match gateway.total_locked.checked_add(amount) {
        Some(sum) => sum,
        None => {
            return Err(ErrorCode::Overflow);
        },
    };
    let deposit_count = match gateway.deposit_count.checked_add(1) {
        Some(sum) => sum,
        None => {
            return Err(ErrorCode::Overflow);
        },
    };
    let deposit_id = generate_deposit_id(&user, &mint, amount, target_chain_id, recipient, gateway.deposit_count);
    deposit_account.deposit_id = deposit_id;
    deposit_account.sender = user;
    deposit_account.mint = mint;
    deposit_account.amount = amount;
    deposit_account.target_chain_id = target_chain_id;
    deposit_account.recipient = recipient;
    deposit_account.zcash_address = zcash_address;
    deposit_account.timestamp = now;
    deposit_account.processed = false;
    gateway.total_locked = total_locked;
    gateway.deposit_count = deposit_count;
    Ok(
        (
            TokensLocked {
                deposit_id,
                sender: user,
                mint,
                amount,
                target_chain_id,
                recipient,
                zcash_address,
                timestamp: now,
            },
            TokenTransfer { into_vault: true, party: user, mint, amount },
        ),
    )
}

/// Why a withdrawal request is refused, if it is: the first of these that
/// holds.
pub open spec fn request_refusal(gateway: GatewayState, nullifier_account: NullifierAccount, amount: u64) -> Option<
    ErrorCode,
> {
    if gateway.paused {
        Some(ErrorCode::GatewayPaused)
    } else if amount == 0 {
        Some(ErrorCode::InvalidAmount)
    } else if nullifier_account.used {
        Some(ErrorCode::NullifierUsed)
    } else if gateway.withdrawal_count == u64::MAX {
        Some(ErrorCode::Overflow)
    } else {
        None
    }
}

/// Request withdrawal, step 1: files the request in its account.
pub fn request_withdrawal(
    gateway: &mut GatewayState,
    withdrawal_request: &mut WithdrawalRequestInfo,
    nullifier_account: &NullifierAccount,
    recipient: [u8; 32],
    mint: [u8; 32],
    amount: u64,
    nullifier: [u8; 32],
    zcash_proof: Vec<u8>,
    merkle_root: [u8; 32],
    now: i64,
) -> (r: Result<WithdrawalRequested, ErrorCode>)
    ensures
        final(gateway).authority == old(gateway).authority,
        final(gateway).coordinator == old(gateway).coordinator,
        final(gateway).paused == old(gateway).paused,
        final(gateway).bump == old(gateway).bump,
        final(gateway).total_locked == old(gateway).total_locked,
        final(gateway).total_withdrawn == old(gateway).total_withdrawn,
        final(gateway).deposit_count == old(gateway).deposit_count,
        match r {
            Err(error) => request_refusal(*old(gateway), *nullifier_account, amount) == Some(error) && *final(gateway)
                == *old(gateway) && *final(withdrawal_request) == *old(withdrawal_request),
            Ok(event) => {
                let id = withdrawal_id_of(recipient@, mint@, amount, nullifier@, old(gateway).withdrawal_count);
                &&& request_refusal(*old(gateway), *nullifier_account, amount) is None
                &&& final(gateway).withdrawal_count == old(gateway).withdrawal_count + 1
                &&& final(withdrawal_request).withdrawal_id@ == id
                &&& final(withdrawal_request).recipient == recipient
                &&& final(withdrawal_request).mint == mint
                &&& final(withdrawal_request).amount == amount
                &&& final(withdrawal_request).nullifier == nullifier
                &&& final(withdrawal_request).timestamp == now
                &&& !final(withdrawal_request).executed
                &&& event.withdrawal_id@ == id
                &&& event.recipient == recipient
                &&& event.mint == mint
                &&& event.amount == amount
                &&& event.nullifier == nullifier
                &&& event.zcash_proof == zcash_proof
                &&& event.merkle_root == merkle_root
                &&& event.timestamp == now
            },
        },
{
    if gateway.paused {
        return Err(ErrorCode::GatewayPaused);
    }
    if amount == 0 {
        return Err(ErrorCode::InvalidAmount);
    }
    if nullifier_account.used {
        return Err(ErrorCode::NullifierUsed);
    }
    let withdrawal_count = match gateway.withdrawal_count.checked_add(1) {
        Some(sum) => sum,
        None => {
            return Err(ErrorCode::Overflow);
        },
    };
    let withdrawal_id = generate_withdrawal_id(&recipient, &mint, amount, nullifier, gateway.withdrawal_count);
    withdrawal_request.withdrawal_id = withdrawal_id;
    withdrawal_request.recipient = recipient;
    withdrawal_request.mint = mint;
    withdrawal_request.amount = amount;
    withdrawal_request.nullifier = nullifier;
    withdrawal_request.timestamp = now;
    withdrawal_request.executed = false;
    gateway.withdrawal_count = withdrawal_count;
    Ok(
        WithdrawalRequested {
            withdrawal_id,
            recipient,
            mint,
            amount,
            nullifier,
            zcash_proof,
            merkle_root,
            timestamp: now,
        },
    )
}

/// Why the execution of a withdrawal is refused, if it is: the first of
/// these that holds.
pub open spec fn execution_refusal(
    gateway: GatewayState,
    withdrawal_request: WithdrawalRequestInfo,
    nullifier_account: NullifierAccount,
    withdrawal_id: Seq<u8>,
    recovered_key: Option<Vec<u8>>,
) -> Option<ErrorCode> {
    if gateway.paused {
        Some(ErrorCode::GatewayPaused)
    } else if withdrawal_request.withdrawal_id@ != withdrawal_id {
        Some(ErrorCode::InvalidWithdrawalId)
    } else if withdrawal_request.executed {
        Some(ErrorCode::AlreadyExecuted)
    } else if nullifier_account.used {
        Some(ErrorCode::NullifierUsed)
    } else if !(recovered_key matches Some(key) && key@.len() == 64) {
        Some(ErrorCode::InvalidSignature)
    } else if gateway.total_locked < withdrawal_request.amount {
        Some(ErrorCode::Underflow)
    } else if gateway.total_withdrawn + withdrawal_request.amount > u64::MAX {
        Some(ErrorCode::Overflow)
    } else {
        None
    }
}

/// A nullifier is honoured once. Whatever request comes with a nullifier
/// account that is marked used, and whatever key was recovered, its
/// execution is refused.
pub proof fn lemma_used_nullifier_is_refused(
    gateway: GatewayState,
    withdrawal_request: WithdrawalRequestInfo,
    nullifier_account: NullifierAccount,
    withdrawal_id: Seq<u8>,
    recovered_key: Option<Vec<u8>>,
)
    requires
        nullifier_account.used,
    ensures
        execution_refusal(gateway, withdrawal_request, nullifier_account, withdrawal_id, recovered_key) is Some,
{
}

/// Execute withdrawal, step 2: with the coordinator's signature, the
/// request is marked executed and its nullifier used, its amount moves from
/// the locked to the withdrawn total, and the transfer to its recipient is
/// wanted. `recovered_key` is the key that the chain recovered from the
/// signature over the withdrawal's digest.
pub fn execute_withdrawal(
    gateway: &mut GatewayState,
    withdrawal_request: &mut WithdrawalRequestInfo,
    nullifier_account: &mut NullifierAccount,
    withdrawal_id: [u8; 32],
    recovered_key: Option<Vec<u8>>,
    now: i64,
) -> (r: Result<(TokensReleased, TokenTransfer), ErrorCode>)
    ensures
        final(gateway).authority == old(gateway).authority,
        final(gateway).coordinator == old(gateway).coordinator,
        final(gateway).paused == old(gateway).paused,
        final(gateway).bump == old(gateway).bump,
        final(gateway).deposit_count == old(gateway).deposit_count,
        final(gateway).withdrawal_count == old(gateway).withdrawal_count,
        match r {
            Err(error) => {
                &&& execution_refusal(
                    *old(gateway),
                    *old(withdrawal_request),
                    *old(nullifier_account),
                    withdrawal_id@,
                    recovered_key,
                ) == Some(error)
                &&& *final(gateway) == *old(gateway)
                &&& *final(withdrawal_request) == *old(withdrawal_request)
                &&& *final(nullifier_account) == *old(nullifier_account)
            },
            Ok((event, transfer)) => {
                let request = *old(withdrawal_request);
                &&& execution_refusal(
                    *old(gateway),
                    request,
                    *old(nullifier_account),
                    withdrawal_id@,
                    recovered_key,
                ) is None
                &&& final(gateway).total_locked == old(gateway).total_locked - request.amount
                &&& final(gateway).total_withdrawn == old(gateway).total_withdrawn + request.amount
                &&& final(withdrawal_request).executed
                &&& final(withdrawal_request).withdrawal_id == request.withdrawal_id
                &&& final(withdrawal_request).recipient == request.recipient
                &&& final(withdrawal_request).mint == request.mint
                &&& final(withdrawal_request).amount == request.amount
                &&& final(withdrawal_request).nullifier == request.nullifier
                &&& final(withdrawal_request).timestamp == request.timestamp
                &&& final(nullifier_account).nullifier == request.nullifier
                &&& final(nullifier_account).used
                &&& final(nullifier_account).timestamp == now
                &&& event.withdrawal_id == withdrawal_id
                &&& event.recipient == request.recipient
                &&& event.mint == request.mint
                &&& event.amount == request.amount
                &&& event.nullifier == request.nullifier
                &&& event.timestamp == now
                &&& !transfer.into_vault
                &&& transfer.party == request.recipient
                &&& transfer.mint == request.mint
                &&& transfer.amount == request.amount
            },
        },
{
    if gateway.paused {
        return Err(ErrorCode::GatewayPaused);
    }
    if !bytes_eq(withdrawal_request.withdrawal_id.as_slice(), withdrawal_id.as_slice()) {
        return Err(ErrorCode::InvalidWithdrawalId);
    }
    if withdrawal_request.executed {
        return Err(ErrorCode::AlreadyExecuted);
    }
    if nullifier_account.used {
        return Err(ErrorCode::NullifierUsed);
    }
    let recipient_key = withdrawal_request.recipient;
    let amount = withdrawal_request.amount;
    let nullifier = withdrawal_request.nullifier;
    let mint_key = withdrawal_request.mint;
    if verify_coordinator_signature(&recovered_key, gateway.coordinator).is_err() {
        return Err(ErrorCode::InvalidSignature);
    }
    let total_locked = match gateway.total_locked.checked_sub(amount) {
        Some(difference) => difference,
        None => {
            return Err(ErrorCode::Underflow);
        },
    };
    let total_withdrawn = match gateway.total_withdrawn.checked_add(amount) {
        Some(sum) => sum,
        None => {
            return Err(ErrorCode::Overflow);
        },
    };
    withdrawal_request.executed = true;
    nullifier_account.nullifier = nullifier;
    nullifier_account.used = true;
    nullifier_account.timestamp = now;
    gateway.total_locked = total_locked;
    gateway.total_withdrawn = total_withdrawn;
    Ok(
        (
            TokensReleased { withdrawal_id, recipient: recipient_key, mint: mint_key, amount, nullifier, timestamp: now },
            TokenTransfer { into_vault: false, party: recipient_key, mint: mint_key, amount },
        ),
    )
}

/// Puts a new coordinator in place. Only the authority may.
pub fn set_coordinator(gateway: &mut GatewayState, authority: [u8; 32], new_coordinator: [u8; 32], now: i64) -> (r: Result<
    CoordinatorUpdated,
    ErrorCode,
>)
    ensures
        final(gateway).authority == old(gateway).authority,
        final(gateway).paused == old(gateway).paused,
        final(gateway).bump == old(gateway).bump,
        final(gateway).total_locked == old(gateway).total_locked,
        final(gateway).total_withdrawn == old(gateway).total_withdrawn,
        final(gateway).deposit_count == old(gateway).deposit_count,
        final(gateway).withdrawal_count == old(gateway).withdrawal_count,
        match r {
            Ok(event) => {
                &&& authority@ == old(gateway).authority@
                &&& final(gateway).coordinator == new_coordinator
                &&& event.old_coordinator == old(gateway).coordinator
                &&& event.new_coordinator == new_coordinator
                &&& event.timestamp == now
            },
            Err(error) => error == ErrorCode::InvalidCoordinator && authority@ != old(gateway).authority@ && final(gateway).coordinator == old(gateway).coordinator,
        },
{
    if !bytes_eq(gateway.authority.as_slice(), authority.as_slice()) {
        return Err(ErrorCode::InvalidCoordinator);
    }
    let old_coordinator = gateway.coordinator;
    gateway.coordinator = new_coordinator;
    Ok(CoordinatorUpdated { old_coordinator, new_coordinator, timestamp: now })
}

/// Pauses the gateway or takes the pause off. Only the authority may. A
/// pause is an event.
pub fn set_paused(gateway: &mut GatewayState, authority: [u8; 32], paused: bool, now: i64) -> (r: Result<
    Option<EmergencyPause>,
    ErrorCode,
>)
    ensures
        final(gateway).authority == old(gateway).authority,
        final(gateway).coordinator == old(gateway).coordinator,
        final(gateway).bump == old(gateway).bump,
        final(gateway).total_locked == old(gateway).total_locked,
        final(gateway).total_withdrawn == old(gateway).total_withdrawn,
        final(gateway).deposit_count == old(gateway).deposit_count,
        final(gateway).withdrawal_count == old(gateway).withdrawal_count,
        match r {
            Ok(event) => {
                &&& authority@ == old(gateway).authority@
                &&& final(gateway).paused == paused
                &&& event is Some == paused
                &&& event matches Some(pause) ==> pause.triggered_by == authority && pause.timestamp == now
            },
            Err(error) => error == ErrorCode::InvalidCoordinator && authority@ != old(gateway).authority@ && final(gateway).paused == old(gateway).paused,
        },
{
    if !bytes_eq(gateway.authority.as_slice(), authority.as_slice()) {
        return Err(ErrorCode::InvalidCoordinator);
    }
    gateway.paused = paused;
    if paused {
        Ok(Some(EmergencyPause { triggered_by: authority, timestamp: now }))
    } else {
        Ok(None)
    }
}

/// Takes liquidity of a provider: the transfer into the vault is wanted.
/// The books stay as they are.
pub fn add_liquidity(gateway: &GatewayState, provider: [u8; 32], mint: [u8; 32], amount: u64, now: i64) -> (r: Result<
    (LiquidityAdded, TokenTransfer),
    ErrorCode,
>)
    ensures
        match r {
            Ok((event, transfer)) => {
                &&& !gateway.paused
                &&& amount > 0
                &&& event.provider == provider
                &&& event.mint == mint
                &&& event.amount == amount
                &&& event.timestamp == now
                &&& transfer.into_vault
                &&& transfer.party == provider
                &&& transfer.mint == mint
                &&& transfer.amount == amount
            },
            Err(ErrorCode::GatewayPaused) => gateway.paused,
            Err(ErrorCode::InvalidAmount) => !gateway.paused && amount == 0,
            Err(_) => false,
        },
{
    if gateway.paused {
        return Err(ErrorCode::GatewayPaused);
    }
    if amount == 0 {
        return Err(ErrorCode::InvalidAmount);
    }
    Ok((LiquidityAdded { provider, mint, amount, timestamp: now }, TokenTransfer { into_vault: true, party: provider, mint, amount }))
}

} // verus!
