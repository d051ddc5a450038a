//! The gateway on NEAR: two-step withdrawal with a coordinator signature.

use vstd::prelude::*;
use vstd::bytes::{spec_u128_to_le_bytes, spec_u64_to_le_bytes, u128_to_le_bytes, u64_to_le_bytes};
use vstd::slice::slice_subrange;
use vstd::utf8::encode_utf8;
use crate::hashing::{keccak256, sha256, spec_keccak256, spec_sha256};
use crate::hexcode::{hex_decode, hex_encode, is_hex_text, spec_hex_decode, spec_hex_encode};
use crate::table::{BytesKey, Table, TextKey};

verus! {

/// The least deposit: a tenth of a NEAR, in yoctoNEAR.
pub const MIN_DEPOSIT: u128 = 100_000_000_000_000_000_000_000;

/// The name of the native token.
pub const NEAR_TOKEN: &'static str = "near";

/// The highest bridge fee, in basis points.
pub const MAX_BRIDGE_FEE: u16 = 100;

/// What the chain tells the gateway of a call.
#[derive(Debug)]
pub struct CallContext {
    /// The account that makes the call.
    pub predecessor: String,
    /// The funds attached to the call, in yoctoNEAR.
    pub attached_deposit: u128,
    /// The time of the block, in nanoseconds.
    pub block_timestamp: u64,
}

#[derive(Debug)]
pub struct DepositInfo {
    pub deposit_id: String,
    pub sender: String,
    pub token: String,
    pub amount: u128,
    pub target_chain_id: u64,
    pub recipient: String,
    pub zcash_address: String,
    pub timestamp: u64,
    pub processed: bool,
}

#[derive(Debug)]
pub struct WithdrawalRequestInfo {
    pub withdrawal_id: String,
    pub recipient: String,
    pub token: String,
    pub amount: u128,
    pub nullifier: String,
    pub timestamp: u64,
    pub executed: bool,
}

#[derive(Debug, Clone, Copy, PartialEq, Eq, Structural)]
pub struct BridgeStats {
    pub total_deposits: u128,
    pub total_withdrawals: u128,
    pub total_volume: u128,
    pub active_deposits: u128,
}

/// Funds that the gateway sends out.
#[derive(Debug)]
pub struct Transfer {
    pub recipient: String,
    pub amount: u128,
}

/// Why the gateway refuses a call. A refused call changes nothing.
#[derive(Debug, Clone, Copy, PartialEq, Eq, Structural)]
pub enum GatewayError {
    Paused,
    AmountBelowMinimum,
    InvalidRecipient,
    InvalidZcashAddress,
    InvalidAmount,
    InvalidNullifier,
    InvalidMerkleRoot,
    NullifierUsed,
    WithdrawalNotFound,
    AlreadyExecuted,
    InvalidNullifierHex,
    InvalidSignatureLength,
    InsufficientLockedBalance,
    OnlyOwner,
    FeeTooHigh,
    /// A sum or a difference does not fit.
    Overflow,
}

/// The bridge fee on an amount: the fee's basis points of it, rounded down.
pub open spec fn fee_of(amount: u128, bridge_fee: u16) -> int {
    (amount * bridge_fee) / 10000
}

/// The id of a deposit: the first 16 bytes, in hexadecimal, of the SHA-256
/// digest of the sender, the token, the amount, the target chain, the
/// number of deposits so far and the time, the numbers with the least
/// significant byte first.
pub open spec fn deposit_id_of(
    sender: Seq<char>,
    token: Seq<char>,
    amount: u128,
    target_chain_id: u64,
    deposit_count: u64,
    timestamp: u64,
) -> Seq<char> {
    spec_hex_encode(
        spec_sha256(
            encode_utf8(sender) + encode_utf8(token) + spec_u128_to_le_bytes(amount) + spec_u64_to_le_bytes(
                target_chain_id,
            ) + spec_u64_to_le_bytes(deposit_count) + spec_u64_to_le_bytes(timestamp),
        ).subrange(0, 16),
    )
}

/// The id of a withdrawal: the first 16 bytes, in hexadecimal, of the
/// SHA-256 digest of the recipient, the token, the amount, the nullifier
/// and the number of withdrawals so far.
pub open spec fn withdrawal_id_of(
    recipient: Seq<char>,
    token: Seq<char>,
    amount: u128,
    nullifier: Seq<u8>,
    withdrawal_count: u64,
) -> Seq<char> {
    spec_hex_encode(
        spec_sha256(
            encode_utf8(recipient) + encode_utf8(token) + spec_u128_to_le_bytes(amount) + nullifier
                + spec_u64_to_le_bytes(withdrawal_count),
        ).subrange(0, 16),
    )
}

/// The message that the coordinator signs for a withdrawal request: the
/// withdrawal id, the recipient, the amount with the least significant byte
/// first, and the nullifier as text.
pub open spec fn signed_message(withdrawal_id: Seq<char>, request: WithdrawalRequestInfo) -> Seq<u8> {
    encode_utf8(withdrawal_id) + encode_utf8(request.recipient@) + spec_u128_to_le_bytes(request.amount)
        + encode_utf8(request.nullifier@)
}

/// The locked balance of a token, and nothing where none is on record.
pub open spec fn balance_of(balances: Map<Seq<char>, u128>, token: Seq<char>) -> u128 {
    if balances.dom().contains(token) {
        balances[token]
    } else {
        0
    }
}

/// The nullifier is marked used.
pub open spec fn used(nullifiers: Map<Seq<u8>, bool>, nullifier: Seq<u8>) -> bool {
    nullifiers.dom().contains(nullifier) && nullifiers[nullifier]
}

/// A nullifier is honoured once. Whatever request carries a nullifier that
/// is marked used, and whatever signature comes with it, its execution is
/// refused.
pub proof fn lemma_used_nullifier_is_refused(gateway: NEARGateway, withdrawal_id: Seq<char>, signature: Seq<u8>)
    requires
        gateway.withdrawal_requests().dom().contains(withdrawal_id),
        is_hex_text(gateway.withdrawal_requests()[withdrawal_id].nullifier@),
        used(gateway.nullifiers(), spec_hex_decode(gateway.withdrawal_requests()[withdrawal_id].nullifier@)),
    ensures
        gateway.execution_refusal(withdrawal_id, signature) is Some,
{
}

pub struct NEARGateway {
    pub owner: String,
    pub coordinator: String,
    pub paused: bool,
    pub locked_balances: Table<TextKey, u128>,
    pub deposits: Table<TextKey, DepositInfo>,
    pub withdrawal_requests: Table<TextKey, WithdrawalRequestInfo>,
    pub nullifiers: Table<BytesKey, bool>,
    pub total_deposits: u128,
    pub total_withdrawals: u128,
    pub deposit_count: u64,
    pub withdrawal_count: u64,
    /// The bridge fee in basis points.
    pub bridge_fee: u16,
}

impl NEARGateway {
    /// The locked balances by token.
    pub open spec fn locked_balances(&self) -> Map<Seq<char>, u128> {
        self.locked_balances@
    }

    /// The deposits by id.
    pub open spec fn deposits(&self) -> Map<Seq<char>, DepositInfo> {
        self.deposits@
    }

    /// The withdrawal requests by id.
    pub open spec fn withdrawal_requests(&self) -> Map<Seq<char>, WithdrawalRequestInfo> {
        self.withdrawal_requests@
    }

    /// The nullifiers on record.
    pub open spec fn nullifiers(&self) -> Map<Seq<u8>, bool> {
        self.nullifiers@
    }

    pub open spec fn wf(&self) -> bool {
        &&& self.locked_balances.wf()
        &&& self.deposits.wf()
        &&& self.withdrawal_requests.wf()
        &&& self.nullifiers.wf()
    }

    /// The gateway is as `before` but for its tables.
    pub open spec fn same_settings(&self, before: &NEARGateway) -> bool {
        &&& self.owner == before.owner
        &&& self.coordinator == before.coordinator
        &&& self.paused == before.paused
        &&& self.bridge_fee == before.bridge_fee
    }

    /// The gateway is as `before` in everything.
    pub open spec fn unchanged(&self, before: &NEARGateway) -> bool {
        &&& self.same_settings(before)
        &&& self.locked_balances() == before.locked_balances()
        &&& self.deposits() == before.deposits()
        &&& self.withdrawal_requests() == before.withdrawal_requests()
        &&& self.nullifiers() == before.nullifiers()
        &&& self.total_deposits == before.total_deposits
        &&& self.total_withdrawals == before.total_withdrawals
        &&& self.deposit_count == before.deposit_count
        &&& self.withdrawal_count == before.withdrawal_count
    }

    /// A new gateway, owned by the caller, with a bridge fee of 0.3%.
    pub fn new(context: &CallContext, coordinator: String) -> (gateway: NEARGateway)
        ensures
            gateway.wf(),
            gateway.owner@ == context.predecessor@,
            gateway.coordinator == coordinator,
            !gateway.paused,
            gateway.locked_balances() == Map::<Seq<char>, u128>::empty(),
            gateway.deposits() == Map::<Seq<char>, DepositInfo>::empty(),
            gateway.withdrawal_requests() == Map::<Seq<char>, WithdrawalRequestInfo>::empty(),
            gateway.nullifiers() == Map::<Seq<u8>, bool>::empty(),
            gateway.total_deposits == 0,
            gateway.total_withdrawals == 0,
            gateway.deposit_count == 0,
            gateway.withdrawal_count == 0,
            gateway.bridge_fee == 30,
    {
        NEARGateway {
            owner: context.predecessor.clone(),
            coordinator,
            paused: false,
            locked_balances: Table::new(),
            deposits: Table::new(),
            withdrawal_requests: Table::new(),
            nullifiers: Table::new(),
            total_deposits: 0,
            total_withdrawals: 0,
            deposit_count: 0,
            withdrawal_count: 0,
            bridge_fee: 30,
        }
    }

    // ============ DEPOSIT ============
    /// What a deposit of `amount` adds to the books, if the books can take
    /// it: the amount less the fee, where the fee does not exceed the
    /// amount and no sum outgrows its width.
    pub open spec fn net_deposit(&self, amount: u128) -> Option<u128> {
        let fee = fee_of(amount, self.bridge_fee);
        let net = amount - fee;
        if amount * self.bridge_fee <= u128::MAX && fee <= amount && balance_of(self.locked_balances(), NEAR_TOKEN@)
            + net <= u128::MAX && self.total_deposits + net <= u128::MAX && self.deposit_count < u64::MAX {
            Some(net as u128)
        } else {
            None
        }
    }

    /// Why a deposit is refused, if it is: the first of these that holds.
    pub open spec fn deposit_refusal(
        &self,
        context: CallContext,
        recipient: Seq<u8>,
        zcash_address: Seq<u8>,
    ) -> Option<GatewayError> {
        if self.paused {
            Some(GatewayError::Paused)
        } else if context.attached_deposit < MIN_DEPOSIT {
            Some(GatewayError::AmountBelowMinimum)
        } else if recipient.len() != 32 {
            Some(GatewayError::InvalidRecipient)
        } else if zcash_address.len() != 32 {
            Some(GatewayError::InvalidZcashAddress)
        } else if self.net_deposit(context.attached_deposit) is None {
            Some(GatewayError::Overflow)
        } else {
            None
        }
    }

    /// Locks the funds attached to the call for a transfer to
    /// `target_chain_id`. The deposit is filed under its id with the amount
    /// less the fee, which is added to the locked balance of the native
    /// token and to the total of deposits.
    pub fn deposit(&mut self, context: &CallContext, target_chain_id: u64, recipient: Vec<u8>, zcash_address: Vec<u8>) -> (r:
        Result<String, GatewayError>)
        requires
            old(self).wf(),
        ensures
            final(self).wf(),
            final(self).same_settings(old(self)),
            match r {
                Err(error) => old(self).deposit_refusal(*context, recipient@, zcash_address@) == Some(error)
                    && final(self).unchanged(old(self)),
                Ok(deposit_id) => {
                    let net = old(self).net_deposit(context.attached_deposit)->0;
                    let info = final(self).deposits()[deposit_id@];
                    &&& old(self).deposit_refusal(*context, recipient@, zcash_address@) is None
                    &&& deposit_id@ == deposit_id_of(
                        context.predecessor@,
                        NEAR_TOKEN@,
                        context.attached_deposit,
                        target_chain_id,
                        old(self).deposit_count,
                        context.block_timestamp,
                    )
                    &&& final(self).deposits().dom() == old(self).deposits().dom().insert(deposit_id@)
                    &&& forall|other: Seq<char>|
                        other != deposit_id@ && old(self).deposits().dom().contains(other) ==> #[trigger] final(self).deposits()[other] == old(self).deposits()[other]
                    &&& info.deposit_id@ == deposit_id@
                    &&& info.sender@ == context.predecessor@
                    &&& info.token@ == NEAR_TOKEN@
                    &&& info.amount == net
                    &&& info.target_chain_id == target_chain_id
                    &&& info.recipient@ == spec_hex_encode(recipient@)
                    &&& info.zcash_address@ == spec_hex_encode(zcash_address@)
                    &&& info.timestamp == context.block_timestamp
                    &&& !info.processed
                    &&& final(self).locked_balances() == old(self).locked_balances().insert(
                        NEAR_TOKEN@,
                        (balance_of(old(self).locked_balances(), NEAR_TOKEN@) + net) as u128,
                    )
                    &&& final(self).total_deposits == old(self).total_deposits + net
                    &&& final(self).deposit_count == old(self).deposit_count + 1
                    &&& final(self).withdrawal_requests() == old(self).withdrawal_requests()
                    &&& final(self).nullifiers() == old(self).nullifiers()
                    &&& final(self).total_withdrawals == old(self).total_withdrawals
                    &&& final(self).withdrawal_count == old(self).withdrawal_count
                },
            },
    {
        if self.paused {
            return Err(GatewayError::Paused);
        }
        let amount = context.attached_deposit;
        if amount < MIN_DEPOSIT {
            return Err(GatewayError::AmountBelowMinimum);
        }
        if recipient.len() != 32 {
            return Err(GatewayError::InvalidRecipient);
        }
        if zcash_address.len() != 32 {
            return Err(GatewayError::InvalidZcashAddress);
        }
        let current = self.get_locked_balance(NEAR_TOKEN);
        let net_amount = match self.calculate_fee(amount) {
            None => {
                return Err(GatewayError::Overflow);
            },
            Some(fee) => {
                if fee > amount {
                    return Err(GatewayError::Overflow);
                }
                amount - fee
            },
        };
        if net_amount > u128::MAX - current || net_amount > u128::MAX - self.total_deposits || self.deposit_count
            == u64::MAX {
            return Err(GatewayError::Overflow);
        }
        let deposit_id = self.generate_deposit_id(
            context.predecessor.as_str(),
            NEAR_TOKEN,
            amount,
            target_chain_id,
            context.block_timestamp,
        );
        let deposit = DepositInfo {
            deposit_id: deposit_id.clone(),
            sender: context.predecessor.clone(),
            token: NEAR_TOKEN.to_owned(),
            amount: net_amount,
            target_chain_id,
            recipient: hex_encode(recipient.as_slice()),
            zcash_address: hex_encode(zcash_address.as_slice()),
            timestamp: context.block_timestamp,
            processed: false,
        };
        self.deposits.insert(TextKey(deposit_id.clone()), deposit);
        self.locked_balances.insert(TextKey(NEAR_TOKEN.to_owned()), current + net_amount);
        self.total_deposits = self.total_deposits + net_amount;
        self.deposit_count = self.deposit_count + 1;
        Ok(deposit_id)
    }

    // ============ WITHDRAWAL REQUEST (Step 1) ============
    /// Why a withdrawal request is refused, if it is: the first of these
    /// that holds.
    pub open spec fn request_refusal(&self, amount: u128, nullifier: Seq<u8>, merkle_root: Seq<u8>) -> Option<
        GatewayError,
    > {
        if self.paused {
            Some(GatewayError::Paused)
        } else if amount == 0 {
            Some(GatewayError::InvalidAmount)
        } else if nullifier.len() != 32 {
            Some(GatewayError::InvalidNullifier)
        } else if merkle_root.len() != 32 {
            Some(GatewayError::InvalidMerkleRoot)
        } else if used(self.nullifiers(), nullifier) {
            Some(GatewayError::NullifierUsed)
        } else if self.withdrawal_count == u64::MAX {
            Some(GatewayError::Overflow)
        } else {
            None
        }
    }

    /// Files a withdrawal request of the caller under its id.
    pub fn request_withdrawal(
        &mut self,
        context: &CallContext,
        token: String,
        amount: u128,
        nullifier: Vec<u8>,
        zcash_proof: Vec<u8>,
        merkle_root: Vec<u8>,
    ) -> (r: Result<String, GatewayError>)
        requires
            old(self).wf(),
        ensures
            final(self).wf(),
            final(self).same_settings(old(self)),
            final(self).locked_balances() == old(self).locked_balances(),
            final(self).deposits() == old(self).deposits(),
            final(self).nullifiers() == old(self).nullifiers(),
            final(self).total_deposits == old(self).total_deposits,
            final(self).total_withdrawals == old(self).total_withdrawals,
            final(self).deposit_count == old(self).deposit_count,
            match r {
                Err(error) => old(self).request_refusal(amount, nullifier@, merkle_root@) == Some(error) && final(self).unchanged(old(self)),
                Ok(withdrawal_id) => {
                    let request = final(self).withdrawal_requests()[withdrawal_id@];
                    &&& old(self).request_refusal(amount, nullifier@, merkle_root@) is None
                    &&& withdrawal_id@ == withdrawal_id_of(
                        context.predecessor@,
                        token@,
                        amount,
                        nullifier@,
                        old(self).withdrawal_count,
                    )
                    &&& final(self).withdrawal_requests().dom() == old(self).withdrawal_requests().dom().insert(
                        withdrawal_id@,
                    )
                    &&& forall|other: Seq<char>|
                        other != withdrawal_id@ && old(self).withdrawal_requests().dom().contains(other)
                            ==> #[trigger] final(self).withdrawal_requests()[other] == old(self).withdrawal_requests()[other]
                    &&& request.withdrawal_id@ == withdrawal_id@
                    &&& request.recipient@ == context.predecessor@
                    &&& request.token@ == token@
                    &&& request.amount == amount
                    &&& request.nullifier@ == spec_hex_encode(nullifier@)
                    &&& request.timestamp == context.block_timestamp
                    &&& !request.executed
                    &&& final(self).withdrawal_count == old(self).withdrawal_count + 1
                },
            },
    {
        if self.paused {
            return Err(GatewayError::Paused);
        }
        if amount == 0 {
            return Err(GatewayError::InvalidAmount);
        }
        if nullifier.len() != 32 {
            return Err(GatewayError::InvalidNullifier);
        }
        if merkle_root.len() != 32 {
            return Err(GatewayError::InvalidMerkleRoot);
        }
        if self.is_nullifier_used(nullifier.as_slice()) {
            return Err(GatewayError::NullifierUsed);
        }
        if self.withdrawal_count == u64::MAX {
            return Err(GatewayError::Overflow);
        }
        let withdrawal_id = self.generate_withdrawal_id(
            context.predecessor.as_str(),
            token.as_str(),
            amount,
            nullifier.as_slice(),
        );
        let request = WithdrawalRequestInfo {
            withdrawal_id: withdrawal_id.clone(),
            recipient: context.predecessor.clone(),
            token,
            amount,
            nullifier: hex_encode(nullifier.as_slice()),
            timestamp: context.block_timestamp,
            executed: false,
        };
        self.withdrawal_requests.insert(TextKey(withdrawal_id.clone()), request);
        self.withdrawal_count = self.withdrawal_count + 1;
        Ok(withdrawal_id)
    }

    // ============ WITHDRAWAL EXECUTION (Step 2) ============
    /// Why the execution of a withdrawal is refused, if it is: the first of
    /// these that holds.
    pub open spec fn execution_refusal(&self, withdrawal_id: Seq<char>, coordinator_signature: Seq<u8>) -> Option<
        GatewayError,
    > {
        if self.paused {
            Some(GatewayError::Paused)
        } else if !self.withdrawal_requests().dom().contains(withdrawal_id) {
            Some(GatewayError::WithdrawalNotFound)
        } else {
            let request = self.withdrawal_requests()[withdrawal_id];
            if request.executed {
                Some(GatewayError::AlreadyExecuted)
            } else if !is_hex_text(request.nullifier@) {
                Some(GatewayError::InvalidNullifierHex)
            } else if used(self.nullifiers(), spec_hex_decode(request.nullifier@)) {
                Some(GatewayError::NullifierUsed)
            } else if coordinator_signature.len() != 65 {
                Some(GatewayError::InvalidSignatureLength)
            } else if balance_of(self.locked_balances(), request.token@) < request.amount {
                Some(GatewayError::InsufficientLockedBalance)
            } else if self.total_withdrawals + request.amount > u128::MAX {
                Some(GatewayError::Overflow)
            } else {
                None
            }
        }
    }

    /// Executes a withdrawal request that the coordinator has signed: the
    /// request is marked executed and its nullifier used, its amount leaves
    /// the locked balance of its token, and the transfer to its recipient
    /// goes out.
    pub fn execute_withdrawal(&mut self, withdrawal_id: String, coordinator_signature: Vec<u8>) -> (r: Result<
        Transfer,
        GatewayError,
    >)
        requires
            old(self).wf(),
        ensures
            final(self).wf(),
            final(self).same_settings(old(self)),
            final(self).deposits() == old(self).deposits(),
            final(self).total_deposits == old(self).total_deposits,
            final(self).deposit_count == old(self).deposit_count,
            final(self).withdrawal_count == old(self).withdrawal_count,
            match r {
                Err(error) => old(self).execution_refusal(withdrawal_id@, coordinator_signature@) == Some(error)
                    && final(self).unchanged(old(self)),
                Ok(transfer) => {
                    let request = old(self).withdrawal_requests()[withdrawal_id@];
                    let after = final(self).withdrawal_requests()[withdrawal_id@];
                    let nullifier = spec_hex_decode(request.nullifier@);
                    &&& old(self).execution_refusal(withdrawal_id@, coordinator_signature@) is None
                    &&& transfer.recipient@ == request.recipient@
                    &&& transfer.amount == request.amount
                    &&& final(self).withdrawal_requests().dom() == old(self).withdrawal_requests().dom()
                    &&& forall|other: Seq<char>|
                        other != withdrawal_id@ && old(self).withdrawal_requests().dom().contains(other)
                            ==> #[trigger] final(self).withdrawal_requests()[other] == old(self).withdrawal_requests()[other]
                    &&& after.executed
                    &&& after.withdrawal_id@ == request.withdrawal_id@
                    &&& after.recipient@ == request.recipient@
                    &&& after.token@ == request.token@
                    &&& after.amount == request.amount
                    &&& after.nullifier@ == request.nullifier@
                    &&& after.timestamp == request.timestamp
                    &&& final(self).nullifiers() == old(self).nullifiers().insert(nullifier, true)
                    &&& final(self).locked_balances() == old(self).locked_balances().insert(
                        request.token@,
                        (balance_of(old(self).locked_balances(), request.token@) - request.amount) as u128,
                    )
                    &&& final(self).total_withdrawals == old(self).total_withdrawals + request.amount
                },
            },
    {
        if self.paused {
            return Err(GatewayError::Paused);
        }
        let key = TextKey(withdrawal_id);
        let (updated, nullifier_bytes, current) = match self.withdrawal_requests.get(&key) {
            None => {
                return Err(GatewayError::WithdrawalNotFound);
            },
            Some(request) => {
                if request.executed {
                    return Err(GatewayError::AlreadyExecuted);
                }
                let nullifier_bytes = match hex_decode(request.nullifier.as_str()) {
                    None => {
                        return Err(GatewayError::InvalidNullifierHex);
                    },
                    Some(bytes) => bytes,
                };
                if self.is_nullifier_used(nullifier_bytes.as_slice()) {
                    return Err(GatewayError::NullifierUsed);
                }
                if !self.verify_coordinator_signature(key.0.as_str(), request, coordinator_signature.as_slice()) {
                    return Err(GatewayError::InvalidSignatureLength);
                }
                let current = self.get_locked_balance(request.token.as_str());
                if current < request.amount {
                    return Err(GatewayError::InsufficientLockedBalance);
                }
                if request.amount > u128::MAX - self.total_withdrawals {
                    return Err(GatewayError::Overflow);
                }
                let updated = WithdrawalRequestInfo {
                    withdrawal_id: request.withdrawal_id.clone(),
                    recipient: request.recipient.clone(),
                    token: request.token.clone(),
                    amount: request.amount,
                    nullifier: request.nullifier.clone(),
                    timestamp: request.timestamp,
                    executed: true,
                };
                (updated, nullifier_bytes, current)
            },
        };
        let transfer = Transfer { recipient: updated.recipient.clone(), amount: updated.amount };
        let token = TextKey(updated.token.clone());
        let amount = updated.amount;
        self.withdrawal_requests.insert(key, updated);
        self.nullifiers.insert(BytesKey(nullifier_bytes), true);
        self.locked_balances.insert(token, current - amount);
        self.total_withdrawals = self.total_withdrawals + amount;
        Ok(transfer)
    }

    // ============ SIGNATURE VERIFICATION ============
    /// The digest that the coordinator's signature is over: the Keccak-256
    /// digest of the request's message.
    pub fn message_hash(withdrawal_id: &str, request: &WithdrawalRequestInfo) -> (hash: Vec<u8>)
        ensures
            hash@ == spec_keccak256(signed_message(withdrawal_id@, *request)),
            hash@.len() == 32,
    {
        let mut message: Vec<u8> = Vec::new();
        message.extend_from_slice(withdrawal_id.as_bytes());
        message.extend_from_slice(request.recipient.as_str().as_bytes());
        let amount = u128_to_le_bytes(request.amount);
        message.extend_from_slice(amount.as_slice());
        message.extend_from_slice(request.nullifier.as_str().as_bytes());
        assert(message@ =~= signed_message(withdrawal_id@, *request));
        keccak256(message.as_slice())
    }

    /// Checks the coordinator's signature on a withdrawal request: it must
    /// be 65 bytes long. The key that signed is not recovered.
    pub fn verify_coordinator_signature(&self, _withdrawal_id: &str, _request: &WithdrawalRequestInfo, signature: &[u8]) -> (valid:
        bool)
        ensures
            valid == (signature@.len() == 65),
    {
        signature.len() == 65
    }

    // ============ VIEW FUNCTIONS ============
    pub fn get_locked_balance(&self, token: &str) -> (balance: u128)
        requires
            self.wf(),
        ensures
            balance == balance_of(self.locked_balances(), token@),
    {
        match self.locked_balances.get(&TextKey(token.to_owned())) {
            Some(balance) => *balance,
            None => 0,
        }
    }

    pub fn is_nullifier_used(&self, nullifier: &[u8]) -> (b: bool)
        requires
            self.wf(),
        ensures
            b == used(self.nullifiers(), nullifier@),
    {
        match self.nullifiers.get(&BytesKey(vstd::slice::slice_to_vec(nullifier))) {
            Some(flag) => *flag,
            None => false,
        }
    }

    pub fn get_deposit(&self, deposit_id: &str) -> (r: Option<&DepositInfo>)
        requires
            self.wf(),
        ensures
            match r {
                Some(info) => self.deposits().dom().contains(deposit_id@) && *info == self.deposits()[deposit_id@],
                None => !self.deposits().dom().contains(deposit_id@),
            },
    {
        self.deposits.get(&TextKey(deposit_id.to_owned()))
    }

    pub fn get_withdrawal_request(&self, withdrawal_id: &str) -> (r: Option<&WithdrawalRequestInfo>)
        requires
            self.wf(),
        ensures
            match r {
                Some(request) => self.withdrawal_requests().dom().contains(withdrawal_id@) && *request
                    == self.withdrawal_requests()[withdrawal_id@],
                None => !self.withdrawal_requests().dom().contains(withdrawal_id@),
            },
    {
        self.withdrawal_requests.get(&TextKey(withdrawal_id.to_owned()))
    }

    /// The totals of the gateway. The volume stops at the largest value;
    /// the active deposits are the deposits less the withdrawals, and
    /// nothing where the withdrawals exceed the deposits.
    pub fn get_stats(&self) -> (stats: BridgeStats)
        ensures
            stats.total_deposits == self.total_deposits,
            stats.total_withdrawals == self.total_withdrawals,
            stats.total_volume == if self.total_deposits + self.total_withdrawals > u128::MAX {
                u128::MAX
            } else {
                (self.total_deposits + self.total_withdrawals) as u128
            },
            stats.active_deposits == if self.total_deposits >= self.total_withdrawals {
                (self.total_deposits - self.total_withdrawals) as u128
            } else {
                0
            },
    {
        BridgeStats {
            total_deposits: self.total_deposits,
            total_withdrawals: self.total_withdrawals,
            total_volume: if self.total_deposits > u128::MAX - self.total_withdrawals {
                u128::MAX
            } else {
                self.total_deposits + self.total_withdrawals
            },
            active_deposits: if self.total_deposits >= self.total_withdrawals {
                self.total_deposits - self.total_withdrawals
            } else {
                0
            },
        }
    }

    // ============ ADMIN FUNCTIONS ============
    /// Puts a new coordinator in place. Only the owner may.
    pub fn set_coordinator(&mut self, context: &CallContext, new_coordinator: String) -> (r: Result<String, GatewayError>)
        requires
            old(self).wf(),
        ensures
            final(self).wf(),
            final(self).owner == old(self).owner,
            final(self).paused == old(self).paused,
            final(self).bridge_fee == old(self).bridge_fee,
            final(self).locked_balances() == old(self).locked_balances(),
            final(self).deposits() == old(self).deposits(),
            final(self).withdrawal_requests() == old(self).withdrawal_requests(),
            final(self).nullifiers() == old(self).nullifiers(),
            final(self).total_deposits == old(self).total_deposits,
            final(self).total_withdrawals == old(self).total_withdrawals,
            final(self).deposit_count == old(self).deposit_count,
            final(self).withdrawal_count == old(self).withdrawal_count,
            match r {
                Ok(old_coordinator) => context.predecessor@ == old(self).owner@ && old_coordinator == old(self).coordinator && final(self).coordinator == new_coordinator,
                Err(error) => error == GatewayError::OnlyOwner && context.predecessor@ != old(self).owner@ && final(self).coordinator == old(self).coordinator,
            },
    {
        if !self.is_owner(context) {
            return Err(GatewayError::OnlyOwner);
        }
        let mut coordinator = new_coordinator;
        std::mem::swap(&mut self.coordinator, &mut coordinator);
        Ok(coordinator)
    }

    /// Pauses the gateway or takes the pause off. Only the owner may.
    pub fn set_paused(&mut self, context: &CallContext, paused: bool) -> (r: Result<(), GatewayError>)
        requires
            old(self).wf(),
        ensures
            final(self).wf(),
            final(self).owner == old(self).owner,
            final(self).coordinator == old(self).coordinator,
            final(self).bridge_fee == old(self).bridge_fee,
            final(self).locked_balances() == old(self).locked_balances(),
            final(self).deposits() == old(self).deposits(),
            final(self).withdrawal_requests() == old(self).withdrawal_requests(),
            final(self).nullifiers() == old(self).nullifiers(),
            final(self).total_deposits == old(self).total_deposits,
            final(self).total_withdrawals == old(self).total_withdrawals,
            final(self).deposit_count == old(self).deposit_count,
            final(self).withdrawal_count == old(self).withdrawal_count,
            match r {
                Ok(()) => context.predecessor@ == old(self).owner@ && final(self).paused == paused,
                Err(error) => error == GatewayError::OnlyOwner && context.predecessor@ != old(self).owner@ && final(self).paused == old(self).paused,
            },
    {
        if !self.is_owner(context) {
            return Err(GatewayError::OnlyOwner);
        }
        self.paused = paused;
        Ok(())
    }

    /// Sets the bridge fee, of one percent at most. Only the owner may.
    pub fn set_bridge_fee(&mut self, context: &CallContext, fee_bps: u16) -> (r: Result<(), GatewayError>)
        requires
            old(self).wf(),
        ensures
            final(self).wf(),
            final(self).owner == old(self).owner,
            final(self).coordinator == old(self).coordinator,
            final(self).paused == old(self).paused,
            final(self).locked_balances() == old(self).locked_balances(),
            final(self).deposits() == old(self).deposits(),
            final(self).withdrawal_requests() == old(self).withdrawal_requests(),
            final(self).nullifiers() == old(self).nullifiers(),
            final(self).total_deposits == old(self).total_deposits,
            final(self).total_withdrawals == old(self).total_withdrawals,
            final(self).deposit_count == old(self).deposit_count,
            final(self).withdrawal_count == old(self).withdrawal_count,
            match r {
                Ok(()) => context.predecessor@ == old(self).owner@ && fee_bps <= MAX_BRIDGE_FEE && final(self).bridge_fee == fee_bps,
                Err(GatewayError::OnlyOwner) => context.predecessor@ != old(self).owner@ && final(self).bridge_fee
                    == old(self).bridge_fee,
                Err(GatewayError::FeeTooHigh) => context.predecessor@ == old(self).owner@ && fee_bps > MAX_BRIDGE_FEE
                    && final(self).bridge_fee == old(self).bridge_fee,
                Err(_) => false,
            },
    {
        if !self.is_owner(context) {
            return Err(GatewayError::OnlyOwner);
        }
        if fee_bps > MAX_BRIDGE_FEE {
            return Err(GatewayError::FeeTooHigh);
        }
        self.bridge_fee = fee_bps;
        Ok(())
    }

    /// Takes liquidity that is attached to the call. The books stay as they
    /// are; the amount is what the call attached.
    pub fn add_liquidity(&self, context: &CallContext) -> (r: Result<u128, GatewayError>)
        ensures
            match r {
                Ok(amount) => !self.paused && context.attached_deposit > 0 && amount == context.attached_deposit,
                Err(GatewayError::Paused) => self.paused,
                Err(GatewayError::InvalidAmount) => !self.paused && context.attached_deposit == 0,
                Err(_) => false,
            },
    {
        if self.paused {
            return Err(GatewayError::Paused);
        }
        if context.attached_deposit == 0 {
            return Err(GatewayError::InvalidAmount);
        }
        Ok(context.attached_deposit)
    }

    // ============ INTERNAL FUNCTIONS ============
    fn is_owner(&self, context: &CallContext) -> (b: bool)
        ensures
            b == (context.predecessor@ == self.owner@),
    {
        context.predecessor == self.owner
    }

    /// The bridge fee on an amount, if the product fits.
    pub fn calculate_fee(&self, amount: u128) -> (fee: Option<u128>)
        ensures
            fee is Some <==> amount * self.bridge_fee <= u128::MAX,
            fee is Some ==> fee->0 == fee_of(amount, self.bridge_fee),
    {
        match amount.checked_mul(self.bridge_fee as u128) {
            Some(product) => Some(product / 10000),
            None => None,
        }
    }

    /// The id of a deposit that is made now.
    pub fn generate_deposit_id(&self, sender: &str, token: &str, amount: u128, target_chain_id: u64, timestamp: u64) -> (id:
        String)
        ensures
            id@ == deposit_id_of(sender@, token@, amount, target_chain_id, self.deposit_count, timestamp),
    {
        let mut data: Vec<u8> = Vec::new();
        data.extend_from_slice(sender.as_bytes());
        data.extend_from_slice(token.as_bytes());
        let amount_bytes = u128_to_le_bytes(amount);
        data.extend_from_slice(amount_bytes.as_slice());
        let chain_bytes = u64_to_le_bytes(target_chain_id);
        data.extend_from_slice(chain_bytes.as_slice());
        let count_bytes = u64_to_le_bytes(self.deposit_count);
        data.extend_from_slice(count_bytes.as_slice());
        let time_bytes = u64_to_le_bytes(timestamp);
        data.extend_from_slice(time_bytes.as_slice());
        assert(data@ =~= encode_utf8(sender@) + encode_utf8(token@) + spec_u128_to_le_bytes(amount)
            + spec_u64_to_le_bytes(target_chain_id) + spec_u64_to_le_bytes(self.deposit_count)
            + spec_u64_to_le_bytes(timestamp));
        let hash = sha256(data.as_slice());
        hex_encode(slice_subrange(hash.as_slice(), 0, 16))
    }

    /// The id of a withdrawal that is requested now.
    pub fn generate_withdrawal_id(&self, recipient: &str, token: &str, amount: u128, nullifier: &[u8]) -> (id: String)
        ensures
            id@ == withdrawal_id_of(recipient@, token@, amount, nullifier@, self.withdrawal_count),
    {
        let mut data: Vec<u8> = Vec::new();
        data.extend_from_slice(recipient.as_bytes());
        data.extend_from_slice(token.as_bytes());
        let amount_bytes = u128_to_le_bytes(amount);
        data.extend_from_slice(amount_bytes.as_slice());
        data.extend_from_slice(nullifier);
        let count_bytes = u64_to_le_bytes(self.withdrawal_count);
        data.extend_from_slice(count_bytes.as_slice());
        assert(data@ =~= encode_utf8(recipient@) + encode_utf8(token@) + spec_u128_to_le_bytes(amount) + nullifier@
            + spec_u64_to_le_bytes(self.withdrawal_count));
        let hash = sha256(data.as_slice());
        hex_encode(slice_subrange(hash.as_slice(), 0, 16))
    }
}

} // verus!
