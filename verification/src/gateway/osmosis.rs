//! The gateway on Osmosis: two-step withdrawal with a coordinator signature.
//!
//! The gateway takes messages. A message that is accepted changes the
//! gateway's books and is answered with a response: the transfers that the
//! chain is to make, and attributes that describe what happened. A message
//! that is refused changes nothing.

use vstd::prelude::*;
use vstd::bytes::{spec_u64_to_le_bytes, u64_to_le_bytes};
use vstd::slice::slice_subrange;
use vstd::utf8::encode_utf8;
use crate::decimal::{decimal, spec_decimal};
use crate::hashing::{is_secp256k1_signature, parses_as_signature, sha256, spec_sha256};
use crate::hexcode::{hex_decode, hex_encode, is_hex_text, spec_hex_decode, spec_hex_encode};
use crate::table::{Table, TextKey};
use crate::text::str_eq;

verus! {

/// The least deposit: one OSMO.
pub const MIN_DEPOSIT: u128 = 1_000_000;

/// The largest deposit: a million OSMO.
pub const MAX_DEPOSIT: u128 = 1_000_000_000_000;

/// The denomination of the native token.
pub const NATIVE_DENOM: &'static str = "uosmo";

/// The highest bridge fee, in basis points.
pub const MAX_BRIDGE_FEE: u16 = 100;

// ============ Messages ============
#[derive(Debug)]
pub struct InstantiateMsg {
    pub coordinator: String,
}

#[derive(Debug)]
pub enum ExecuteMsg {
    Deposit { target_chain_id: u64, recipient: String, zcash_address: String },
    RequestWithdrawal { token: String, amount: u128, nullifier: String, zcash_proof: String, merkle_root: String },
    ExecuteWithdrawal { withdrawal_id: String, coordinator_signature: String },
    AddLiquidity { token: String },
    RemoveLiquidity { token: String, amount: u128 },
    SetCoordinator { new_coordinator: String },
    AddLiquidityProvider { provider: String },
    RemoveLiquidityProvider { provider: String },
    SetPaused { paused: bool },
    SetBridgeFee { new_fee: u16 },
    EmergencyWithdraw { token: String, to: String, amount: u128 },
}

#[derive(Debug)]
pub enum QueryMsg {
    GetLockedBalance { token: String },
    GetAvailableLiquidity { token: String },
    IsNullifierUsed { nullifier: String },
    GetDeposit { deposit_id: String },
    GetWithdrawalRequest { withdrawal_id: String },
    GetStats {  },
    GetConfig {  },
}

/// The answer to a query.
#[derive(Debug)]
pub enum QueryResponse {
    LockedBalance(u128),
    AvailableLiquidity(u128),
    NullifierUsed(bool),
    Deposit(DepositInfo),
    WithdrawalRequest(WithdrawalRequestInfo),
    Stats(BridgeStats),
    Config(Config),
}

// ============ Errors ============
#[derive(Debug, Clone, Copy, PartialEq, Eq, Structural)]
pub enum ContractError {
    /// What was asked for is not on record.
    NotFound,
    /// A sum does not fit.
    Overflow,
    Unauthorized,
    Paused,
    MustBePaused,
    AmountTooSmall,
    AmountTooLarge,
    InvalidAmount,
    InvalidRecipient,
    InvalidZcashAddress,
    InvalidNullifier,
    InvalidMerkleRoot,
    NullifierUsed,
    AlreadyExecuted,
    InsufficientLockedBalance,
    InsufficientLiquidity,
    InvalidSignature,
    FeeTooHigh,
}

// ============ State ============
#[derive(Debug)]
pub struct Config {
    pub owner: String,
    pub coordinator: String,
    pub paused: bool,
    pub bridge_fee: u16,
}

#[derive(Debug)]
pub struct DepositInfo {
    pub deposit_id: String,
    pub sender: String,
    pub token: String,
    pub amount: u128,
    pub target_chain_id: u64,
    pub recipient: String,
    pub zcash_address: String,
    pub timestamp: u64,
    pub processed: bool,
}

#[derive(Debug)]
pub struct WithdrawalRequestInfo {
    pub withdrawal_id: String,
    pub recipient: String,
    pub token: String,
    pub amount: u128,
    pub nullifier: String,
    pub timestamp: u64,
    pub executed: bool,
}

#[derive(Debug, Clone, Copy, PartialEq, Eq, Structural)]
pub struct BridgeStats {
    pub total_deposits: u128,
    pub total_withdrawals: u128,
    pub total_volume: u128,
    pub active_deposits: u128,
}

// ============ What the chain tells and is told ============
#[derive(Debug)]
pub struct Coin {
    pub denom: String,
    pub amount: u128,
}

/// Who sends a message, and with which funds.
#[derive(Debug)]
pub struct MessageInfo {
    pub sender: String,
    pub funds: Vec<Coin>,
}

/// The time of the block, in seconds.
#[derive(Debug, Clone, Copy)]
pub struct Env {
    pub time_seconds: u64,
}

/// A transfer that the chain is to make.
#[derive(Debug)]
pub enum TransferMsg {
    /// Native funds.
    Bank { to_address: String, denom: String, amount: u128 },
    /// Tokens of a CW20 contract.
    Cw20 { contract_addr: String, recipient: String, amount: u128 },
}

#[derive(Debug)]
pub enum AttrValue {
    Text(String),
    Amount(u128),
    Number(u64),
    Flag(bool),
}

#[derive(Debug)]
pub struct Attribute {
    pub key: String,
    pub value: AttrValue,
}

#[derive(Debug)]
pub struct Response {
    pub messages: Vec<TransferMsg>,
    pub attributes: Vec<Attribute>,
}

pub enum AttrView {
    Text(Seq<char>),
    Amount(u128),
    Number(u64),
    Flag(bool),
}

pub enum TransferView {
    Bank { to_address: Seq<char>, denom: Seq<char>, amount: u128 },
    Cw20 { contract_addr: Seq<char>, recipient: Seq<char>, amount: u128 },
}

impl View for AttrValue {
    type V = AttrView;

    open spec fn view(&self) -> AttrView {
        match self {
            AttrValue::Text(text) => AttrView::Text(text@),
            AttrValue::Amount(amount) => AttrView::Amount(*amount),
            AttrValue::Number(number) => AttrView::Number(*number),
            AttrValue::Flag(flag) => AttrView::Flag(*flag),
        }
    }
}

impl View for Attribute {
    type V = (Seq<char>, AttrView);

    open spec fn view(&self) -> (Seq<char>, AttrView) {
        (self.key@, self.value@)
    }
}

impl View for TransferMsg {
    type V = TransferView;

    open spec fn view(&self) -> TransferView {
        match self {
            TransferMsg::Bank { to_address, denom, amount } => TransferView::Bank {
                to_address: to_address@,
                denom: denom@,
                amount: *amount,
            },
            TransferMsg::Cw20 { contract_addr, recipient, amount } => TransferView::Cw20 {
                contract_addr: contract_addr@,
                recipient: recipient@,
                amount: *amount,
            },
        }
    }
}

impl Response {
    /// The transfers of the response.
    pub open spec fn transfers(&self) -> Seq<TransferView> {
        self.messages@.map_values(|m: TransferMsg| m@)
    }

    /// The attributes of the response, as keys and values.
    pub open spec fn pairs(&self) -> Seq<(Seq<char>, AttrView)> {
        self.attributes@.map_values(|a: Attribute| a@)
    }
}

fn text(key: &str, value: &str) -> (attribute: Attribute)
    ensures
        attribute@ == (key@, AttrView::Text(value@)),
{
    Attribute { key: key.to_owned(), value: AttrValue::Text(value.to_owned()) }
}

fn amount_of(key: &str, value: u128) -> (attribute: Attribute)
    ensures
        attribute@ == (key@, AttrView::Amount(value)),
{
    Attribute { key: key.to_owned(), value: AttrValue::Amount(value) }
}

fn number(key: &str, value: u64) -> (attribute: Attribute)
    ensures
        attribute@ == (key@, AttrView::Number(value)),
{
    Attribute { key: key.to_owned(), value: AttrValue::Number(value) }
}

fn flag(key: &str, value: bool) -> (attribute: Attribute)
    ensures
        attribute@ == (key@, AttrView::Flag(value)),
{
    Attribute { key: key.to_owned(), value: AttrValue::Flag(value) }
}

fn respond(messages: Vec<TransferMsg>, attributes: Vec<Attribute>) -> (response: Response)
    ensures
        response.messages == messages,
        response.attributes == attributes,
{
    Response { messages, attributes }
}

// ============ The books ============
/// The amount on record under a key, and nothing where none is.
pub open spec fn amount_at(amounts: Map<Seq<char>, u128>, key: Seq<char>) -> u128 {
    if amounts.dom().contains(key) {
        amounts[key]
    } else {
        0
    }
}

/// The flag on record under a key, and `false` where none is.
pub open spec fn flag_at(flags: Map<Seq<char>, bool>, key: Seq<char>) -> bool {
    flags.dom().contains(key) && flags[key]
}

/// The funds of a denomination among the funds of a message: the amount of
/// the first coin of the denomination, and nothing where there is none.
pub open spec fn funds_of(funds: Seq<Coin>, denom: Seq<char>) -> u128
    decreases funds.len(),
{
    if funds.len() == 0 {
        0
    } else if funds[0].denom@ == denom {
        funds[0].amount
    } else {
        funds_of(funds.drop_first(), denom)
    }
}

/// The bridge fee on an amount: the fee's basis points of it, rounded down.
pub open spec fn fee_of(amount: u128, bridge_fee: u16) -> int {
    (amount * bridge_fee) / 10000
}

/// An amount less its fee, and nothing where the fee exceeds it.
pub open spec fn net_of(amount: u128, bridge_fee: u16) -> u128 {
    if fee_of(amount, bridge_fee) >= amount {
        0
    } else {
        (amount - fee_of(amount, bridge_fee)) as u128
    }
}

/// The id of a deposit: the SHA-256 digest, in hexadecimal, of the sender,
/// the token, the amount in decimal, the target chain, the recipient, the
/// number of deposits so far and the time, the numbers with the least
/// significant byte first.
pub open spec fn deposit_id_of(
    sender: Seq<char>,
    token: Seq<char>,
    amount: u128,
    target_chain_id: u64,
    recipient: Seq<char>,
    nonce: u64,
    timestamp: u64,
) -> Seq<char> {
    spec_hex_encode(
        spec_sha256(
            encode_utf8(sender) + encode_utf8(token) + spec_decimal(amount as nat) + spec_u64_to_le_bytes(
                target_chain_id,
            ) + encode_utf8(recipient) + spec_u64_to_le_bytes(nonce) + spec_u64_to_le_bytes(timestamp),
        ),
    )
}

/// The id of a withdrawal: the SHA-256 digest, in hexadecimal, of the
/// recipient, the token, the amount in decimal, the nullifier, the number
/// of withdrawals so far and the time.
pub open spec fn withdrawal_id_of(
    recipient: Seq<char>,
    token: Seq<char>,
    amount: u128,
    nullifier: Seq<char>,
    nonce: u64,
    timestamp: u64,
) -> Seq<char> {
    spec_hex_encode(
        spec_sha256(
            encode_utf8(recipient) + encode_utf8(token) + spec_decimal(amount as nat) + encode_utf8(nullifier)
                + spec_u64_to_le_bytes(nonce) + spec_u64_to_le_bytes(timestamp),
        ),
    )
}

/// The coordinator's signature is in order: hexadecimal text for 65 bytes,
/// of which the first 64 are a signature over secp256k1.
pub open spec fn signature_in_order(signature: Seq<char>) -> bool {
    &&& is_hex_text(signature)
    &&& spec_hex_decode(signature).len() == 65
    &&& is_secp256k1_signature(spec_hex_decode(signature).subrange(0, 64))
}

/// The digest that the coordinator's signature on a withdrawal is over.
pub open spec fn signed_hash_of(
    withdrawal_id: Seq<char>,
    recipient: Seq<char>,
    token: Seq<char>,
    amount: u128,
    nullifier: Seq<char>,
) -> Seq<u8> {
    spec_sha256(
        encode_utf8(withdrawal_id) + encode_utf8(recipient) + encode_utf8(token) + spec_decimal(amount as nat)
            + encode_utf8(nullifier),
    )
}

pub struct Gateway {
    pub config: Config,
    pub deposits: Table<TextKey, DepositInfo>,
    pub withdrawal_requests: Table<TextKey, WithdrawalRequestInfo>,
    pub nullifiers: Table<TextKey, bool>,
    pub locked_balances: Table<TextKey, u128>,
    pub liquidity_providers: Table<TextKey, bool>,
    pub deposit_count: u64,
    pub withdrawal_count: u64,
    pub total_deposits: u128,
    pub total_withdrawals: u128,
}

impl DepositInfo {
    pub fn duplicate(&self) -> (r: DepositInfo)
        ensures
            r == *self,
    {
        DepositInfo {
            deposit_id: self.deposit_id.clone(),
            sender: self.sender.clone(),
            token: self.token.clone(),
            amount: self.amount,
            target_chain_id: self.target_chain_id,
            recipient: self.recipient.clone(),
            zcash_address: self.zcash_address.clone(),
            timestamp: self.timestamp,
            processed: self.processed,
        }
    }
}

impl WithdrawalRequestInfo {
    pub fn duplicate(&self) -> (r: WithdrawalRequestInfo)
        ensures
            r == *self,
    {
        WithdrawalRequestInfo {
            withdrawal_id: self.withdrawal_id.clone(),
            recipient: self.recipient.clone(),
            token: self.token.clone(),
            amount: self.amount,
            nullifier: self.nullifier.clone(),
            timestamp: self.timestamp,
            executed: self.executed,
        }
    }
}

impl Gateway {
    pub open spec fn wf(&self) -> bool {
        &&& self.deposits.wf()
        &&& self.withdrawal_requests.wf()
        &&& self.nullifiers.wf()
        &&& self.locked_balances.wf()
        &&& self.liquidity_providers.wf()
    }

    /// The gateway's configuration and its list of liquidity providers are
    /// as in `before`.
    pub open spec fn same_settings(&self, before: &Gateway) -> bool {
        &&& self.config == before.config
        &&& self.liquidity_providers@ == before.liquidity_providers@
    }

    /// The gateway's books are as in `before`.
    pub open spec fn same_books(&self, before: &Gateway) -> bool {
        &&& self.deposits@ == before.deposits@
        &&& self.withdrawal_requests@ == before.withdrawal_requests@
        &&& self.nullifiers@ == before.nullifiers@
        &&& self.locked_balances@ == before.locked_balances@
        &&& self.deposit_count == before.deposit_count
        &&& self.withdrawal_count == before.withdrawal_count
        &&& self.total_deposits == before.total_deposits
        &&& self.total_withdrawals == before.total_withdrawals
    }

    /// The gateway is as `before` in everything.
    pub open spec fn unchanged(&self, before: &Gateway) -> bool {
        self.same_settings(before) && self.same_books(before)
    }

    fn locked(&self, token: &str) -> (balance: u128)
        requires
            self.wf(),
        ensures
            balance == amount_at(self.locked_balances@, token@),
    {
        match self.locked_balances.get(&TextKey(token.to_owned())) {
            Some(balance) => *balance,
            None => 0,
        }
    }

    fn nullifier_used(&self, nullifier: &str) -> (b: bool)
        requires
            self.wf(),
        ensures
            b == flag_at(self.nullifiers@, nullifier@),
    {
        match self.nullifiers.get(&TextKey(nullifier.to_owned())) {
            Some(flag) => *flag,
            None => false,
        }
    }

    fn is_provider(&self, sender: &str) -> (b: bool)
        requires
            self.wf(),
        ensures
            b == flag_at(self.liquidity_providers@, sender@),
    {
        match self.liquidity_providers.get(&TextKey(sender.to_owned())) {
            Some(flag) => *flag,
            None => false,
        }
    }

    fn is_owner(&self, info: &MessageInfo) -> (b: bool)
        ensures
            b == (info.sender@ == self.config.owner@),
    {
        info.sender == self.config.owner
    }
}

fn funds_in(funds: &Vec<Coin>, denom: &str) -> (amount: u128)
    ensures
        amount == funds_of(funds@, denom@),
{
    let mut i: usize = 0;
    assert(funds@.skip(0) =~= funds@);
    while i < funds.len()
        invariant
            i <= funds@.len(),
            funds_of(funds@, denom@) == funds_of(funds@.skip(i as int), denom@),
        decreases funds@.len() - i,
    {
        if str_eq(funds[i].denom.as_str(), denom) {
            assert(funds@.skip(i as int)[0] == funds@[i as int]);
            return funds[i].amount;
        }
        proof {
            assert(funds@.skip(i as int)[0] == funds@[i as int]);
            assert(funds@.skip(i as int).drop_first() =~= funds@.skip(i as int + 1));
        }
        i += 1;
    }
    assert(funds@.skip(i as int).len() == 0);
    0
}

// ============ Instantiate ============
/// A new gateway, owned by the sender, with a bridge fee of 0.3%.
pub fn instantiate(info: &MessageInfo, msg: InstantiateMsg) -> (r: (Gateway, Response))
    ensures
        r.0.wf(),
        r.0.config.owner@ == info.sender@,
        r.0.config.coordinator == msg.coordinator,
        !r.0.config.paused,
        r.0.config.bridge_fee == 30,
        r.0.deposits@ == Map::<Seq<char>, DepositInfo>::empty(),
        r.0.withdrawal_requests@ == Map::<Seq<char>, WithdrawalRequestInfo>::empty(),
        r.0.nullifiers@ == Map::<Seq<char>, bool>::empty(),
        r.0.locked_balances@ == Map::<Seq<char>, u128>::empty(),
        r.0.liquidity_providers@ == Map::<Seq<char>, bool>::empty(),
        r.0.deposit_count == 0,
        r.0.withdrawal_count == 0,
        r.0.total_deposits == 0,
        r.0.total_withdrawals == 0,
        r.1.transfers() == Seq::<TransferView>::empty(),
        r.1.pairs() == seq![
            ("action"@, AttrView::Text("instantiate"@)),
            ("owner"@, AttrView::Text(info.sender@)),
            ("coordinator"@, AttrView::Text(msg.coordinator@)),
        ],
{
    let mut attributes: Vec<Attribute> = Vec::new();
    attributes.push(text("action", "instantiate"));
    attributes.push(text("owner", info.sender.as_str()));
    attributes.push(text("coordinator", msg.coordinator.as_str()));
    let response = respond(Vec::new(), attributes);
    assert(response.transfers() =~= Seq::<TransferView>::empty());
    assert(response.pairs() =~= seq![
        ("action"@, AttrView::Text("instantiate"@)),
        ("owner"@, AttrView::Text(info.sender@)),
        ("coordinator"@, AttrView::Text(msg.coordinator@)),
    ]);
    let gateway = Gateway {
        config: Config { owner: info.sender.clone(), coordinator: msg.coordinator, paused: false, bridge_fee: 30 },
        deposits: Table::new(),
        withdrawal_requests: Table::new(),
        nullifiers: Table::new(),
        locked_balances: Table::new(),
        liquidity_providers: Table::new(),
        deposit_count: 0,
        withdrawal_count: 0,
        total_deposits: 0,
        total_withdrawals: 0,
    };
    (gateway, response)
}

// ============ DEPOSIT ============
/// Why a deposit is refused, if it is: the first of these that holds.
pub open spec fn deposit_refusal(gateway: Gateway, info: MessageInfo, recipient: Seq<char>, zcash_address: Seq<char>) -> Option<
    ContractError,
> {
    let amount = funds_of(info.funds@, NATIVE_DENOM@);
    let net = net_of(amount, gateway.config.bridge_fee);
    if gateway.config.paused {
        Some(ContractError::Paused)
    } else if encode_utf8(recipient).len() != 64 {
        Some(ContractError::InvalidRecipient)
    } else if encode_utf8(zcash_address).len() != 64 {
        Some(ContractError::InvalidZcashAddress)
    } else if amount < MIN_DEPOSIT {
        Some(ContractError::AmountTooSmall)
    } else if amount > MAX_DEPOSIT {
        Some(ContractError::AmountTooLarge)
    } else if amount_at(gateway.locked_balances@, NATIVE_DENOM@) + net > u128::MAX || gateway.total_deposits + net
        > u128::MAX || gateway.deposit_count == u64::MAX {
        Some(ContractError::Overflow)
    } else {
        None
    }
}

/// Locks the native funds of the message for a transfer to
/// `target_chain_id`: the deposit is filed under its id with the amount
/// less the fee, which is added to the locked balance of the native token
/// and to the total of deposits.
pub fn execute_deposit(
    gateway: &mut Gateway,
    env: Env,
    info: &MessageInfo,
    target_chain_id: u64,
    recipient: String,
    zcash_address: String,
) -> (r: Result<Response, ContractError>)
    requires
        old(gateway).wf(),
    ensures
        final(gateway).wf(),
        final(gateway).same_settings(old(gateway)),
        final(gateway).withdrawal_requests@ == old(gateway).withdrawal_requests@,
        final(gateway).nullifiers@ == old(gateway).nullifiers@,
        final(gateway).withdrawal_count == old(gateway).withdrawal_count,
        final(gateway).total_withdrawals == old(gateway).total_withdrawals,
        match r {
            Err(error) => deposit_refusal(*old(gateway), *info, recipient@, zcash_address@) == Some(error) && final(gateway).unchanged(old(gateway)),
            Ok(response) => {
                let amount = funds_of(info.funds@, NATIVE_DENOM@);
                let net = net_of(amount, old(gateway).config.bridge_fee);
                let id = deposit_id_of(
                    info.sender@,
                    NATIVE_DENOM@,
                    amount,
                    target_chain_id,
                    recipient@,
                    old(gateway).deposit_count,
                    env.time_seconds,
                );
                let stored = final(gateway).deposits@[id];
                &&& deposit_refusal(*old(gateway), *info, recipient@, zcash_address@) is None
                &&& final(gateway).deposits@.dom() == old(gateway).deposits@.dom().insert(id)
                &&& forall|other: Seq<char>|
                    other != id && old(gateway).deposits@.dom().contains(other) ==> #[trigger] final(gateway).deposits@[other] == old(gateway).deposits@[other]
                &&& stored.deposit_id@ == id
                &&& stored.sender@ == info.sender@
                &&& stored.token@ == NATIVE_DENOM@
                &&& stored.amount == net
                &&& stored.target_chain_id == target_chain_id
                &&& stored.recipient@ == recipient@
                &&& stored.zcash_address@ == zcash_address@
                &&& stored.timestamp == env.time_seconds
                &&& !stored.processed
                &&& final(gateway).locked_balances@ == old(gateway).locked_balances@.insert(
                    NATIVE_DENOM@,
                    (amount_at(old(gateway).locked_balances@, NATIVE_DENOM@) + net) as u128,
                )
                &&& final(gateway).total_deposits == old(gateway).total_deposits + net
                &&& final(gateway).deposit_count == old(gateway).deposit_count + 1
                &&& response.transfers() == Seq::<TransferView>::empty()
                &&& response.pairs() == seq![
                    ("action"@, AttrView::Text("deposit"@)),
                    ("deposit_id"@, AttrView::Text(id)),
                    ("sender"@, AttrView::Text(info.sender@)),
                    ("amount"@, AttrView::Amount(net)),
                    ("target_chain_id"@, AttrView::Number(target_chain_id)),
                    ("recipient"@, AttrView::Text(recipient@)),
                    ("zcash_address"@, AttrView::Text(zcash_address@)),
                ]
            },
        },
{
    if gateway.config.paused {
        return Err(ContractError::Paused);
    }
    if recipient.as_str().as_bytes().len() != 64 {
        return Err(ContractError::InvalidRecipient);
    }
    if zcash_address.as_str().as_bytes().len() != 64 {
        return Err(ContractError::InvalidZcashAddress);
    }
    let amount = funds_in(&info.funds, NATIVE_DENOM);
    if amount < MIN_DEPOSIT {
        return Err(ContractError::AmountTooSmall);
    }
    if amount > MAX_DEPOSIT {
        return Err(ContractError::AmountTooLarge);
    }
    assert(amount * gateway.config.bridge_fee <= 1_000_000_000_000 * 65535) by (nonlinear_arith)
        requires
            amount <= 1_000_000_000_000,
            gateway.config.bridge_fee <= 65535,
    ;
    let fee = amount * (gateway.config.bridge_fee as u128) / 10000;
    let net_amount = if fee >= amount {
        0
    } else {
        amount - fee
    };
    let current_locked = gateway.locked(NATIVE_DENOM);
    if net_amount > u128::MAX - current_locked || net_amount > u128::MAX - gateway.total_deposits
        || gateway.deposit_count == u64::MAX {
        return Err(ContractError::Overflow);
    }
    let deposit_count = gateway.deposit_count;
    let deposit_id = generate_deposit_id(
        info.sender.as_str(),
        NATIVE_DENOM,
        amount,
        target_chain_id,
        recipient.as_str(),
        deposit_count,
        env.time_seconds,
    );
    let deposit_info = DepositInfo {
        deposit_id: deposit_id.clone(),
        sender: info.sender.clone(),
        token: NATIVE_DENOM.to_owned(),
        amount: net_amount,
        target_chain_id,
        recipient: recipient.clone(),
        zcash_address: zcash_address.clone(),
        timestamp: env.time_seconds,
        processed: false,
    };
    gateway.deposits.insert(TextKey(deposit_id.clone()), deposit_info);
    gateway.locked_balances.insert(TextKey(NATIVE_DENOM.to_owned()), current_locked + net_amount);
    gateway.total_deposits = gateway.total_deposits + net_amount;
    gateway.deposit_count = deposit_count + 1;
    let mut attributes: Vec<Attribute> = Vec::new();
    attributes.push(text("action", "deposit"));
    attributes.push(text("deposit_id", deposit_id.as_str()));
    attributes.push(text("sender", info.sender.as_str()));
    attributes.push(amount_of("amount", net_amount));
    attributes.push(number("target_chain_id", target_chain_id));
    attributes.push(text("recipient", recipient.as_str()));
    attributes.push(text("zcash_address", zcash_address.as_str()));
    let response = respond(Vec::new(), attributes);
    assert(response.transfers() =~= Seq::<TransferView>::empty());
    assert(response.pairs() =~= seq![
        ("action"@, AttrView::Text("deposit"@)),
        ("deposit_id"@, AttrView::Text(deposit_id@)),
        ("sender"@, AttrView::Text(info.sender@)),
        ("amount"@, AttrView::Amount(net_amount)),
        ("target_chain_id"@, AttrView::Number(target_chain_id)),
        ("recipient"@, AttrView::Text(recipient@)),
        ("zcash_address"@, AttrView::Text(zcash_address@)),
    ]);
    Ok(response)
}

// ============ WITHDRAWAL REQUEST (Step 1) ============
/// Why a withdrawal request is refused, if it is: the first of these that
/// holds.
pub open spec fn request_refusal(gateway: Gateway, amount: u128, nullifier: Seq<char>, merkle_root: Seq<char>) -> Option<
    ContractError,
> {
    if gateway.config.paused {
        Some(ContractError::Paused)
    } else if amount == 0 {
        Some(ContractError::InvalidAmount)
    } else if encode_utf8(nullifier).len() != 64 {
        Some(ContractError::InvalidNullifier)
    } else if encode_utf8(merkle_root).len() != 64 {
        Some(ContractError::InvalidMerkleRoot)
    } else if flag_at(gateway.nullifiers@, nullifier) {
        Some(ContractError::NullifierUsed)
    } else if gateway.withdrawal_count == u64::MAX {
        Some(ContractError::Overflow)
    } else {
        None
    }
}

/// Files a withdrawal request of the sender under its id.
pub fn execute_request_withdrawal(
    gateway: &mut Gateway,
    env: Env,
    info: &MessageInfo,
    token: String,
    amount: u128,
    nullifier: String,
    zcash_proof: String,
    merkle_root: String,
) -> (r: Result<Response, ContractError>)
    requires
        old(gateway).wf(),
    ensures
        final(gateway).wf(),
        final(gateway).same_settings(old(gateway)),
        final(gateway).deposits@ == old(gateway).deposits@,
        final(gateway).nullifiers@ == old(gateway).nullifiers@,
        final(gateway).locked_balances@ == old(gateway).locked_balances@,
        final(gateway).deposit_count == old(gateway).deposit_count,
        final(gateway).total_deposits == old(gateway).total_deposits,
        final(gateway).total_withdrawals == old(gateway).total_withdrawals,
        match r {
            Err(error) => request_refusal(*old(gateway), amount, nullifier@, merkle_root@) == Some(error) && final(gateway).unchanged(old(gateway)),
            Ok(response) => {
                let id = withdrawal_id_of(
                    info.sender@,
                    token@,
                    amount,
                    nullifier@,
                    old(gateway).withdrawal_count,
                    env.time_seconds,
                );
                let stored = final(gateway).withdrawal_requests@[id];
                &&& request_refusal(*old(gateway), amount, nullifier@, merkle_root@) is None
                &&& final(gateway).withdrawal_requests@.dom() == old(gateway).withdrawal_requests@.dom().insert(id)
                &&& forall|other: Seq<char>|
                    other != id && old(gateway).withdrawal_requests@.dom().contains(other) ==> #[trigger] final(gateway).withdrawal_requests@[other] == old(gateway).withdrawal_requests@[other]
                &&& stored.withdrawal_id@ == id
                &&& stored.recipient@ == info.sender@
                &&& stored.token@ == token@
                &&& stored.amount == amount
                &&& stored.nullifier@ == nullifier@
                &&& stored.timestamp == env.time_seconds
                &&& !stored.executed
                &&& final(gateway).withdrawal_count == old(gateway).withdrawal_count + 1
                &&& response.transfers() == Seq::<TransferView>::empty()
                &&& response.pairs() == seq![
                    ("action"@, AttrView::Text("request_withdrawal"@)),
                    ("withdrawal_id"@, AttrView::Text(id)),
                    ("recipient"@, AttrView::Text(info.sender@)),
                    ("token"@, AttrView::Text(token@)),
                    ("amount"@, AttrView::Amount(amount)),
                    ("nullifier"@, AttrView::Text(nullifier@)),
                    ("zcash_proof"@, AttrView::Text(zcash_proof@)),
                    ("merkle_root"@, AttrView::Text(merkle_root@)),
                ]
            },
        },
{
    if gateway.config.paused {
        return Err(ContractError::Paused);
    }
    if amount == 0 {
        return Err(ContractError::InvalidAmount);
    }
    if nullifier.as_str().as_bytes().len() != 64 {
        return Err(ContractError::InvalidNullifier);
    }
    if merkle_root.as_str().as_bytes().len() != 64 {
        return Err(ContractError::InvalidMerkleRoot);
    }
    if gateway.nullifier_used(nullifier.as_str()) {
        return Err(ContractError::NullifierUsed);
    }
    if gateway.withdrawal_count == u64::MAX {
        return Err(ContractError::Overflow);
    }
    let withdrawal_count = gateway.withdrawal_count;
    let withdrawal_id = generate_withdrawal_id(
        info.sender.as_str(),
        token.as_str(),
        amount,
        nullifier.as_str(),
        withdrawal_count,
        env.time_seconds,
    );
    let request = WithdrawalRequestInfo {
        withdrawal_id: withdrawal_id.clone(),
        recipient: info.sender.clone(),
        token: token.clone(),
        amount,
        nullifier: nullifier.clone(),
        timestamp: env.time_seconds,
        executed: false,
    };
    gateway.withdrawal_requests.insert(TextKey(withdrawal_id.clone()), request);
    gateway.withdrawal_count = withdrawal_count + 1;
    let mut attributes: Vec<Attribute> = Vec::new();
    attributes.push(text("action", "request_withdrawal"));
    attributes.push(text("withdrawal_id", withdrawal_id.as_str()));
    attributes.push(text("recipient", info.sender.as_str()));
    attributes.push(text("token", token.as_str()));
    attributes.push(amount_of("amount", amount));
    attributes.push(text("nullifier", nullifier.as_str()));
    attributes.push(text("zcash_proof", zcash_proof.as_str()));
    attributes.push(text("merkle_root", merkle_root.as_str()));
    let response = respond(Vec::new(), attributes);
    assert(response.transfers() =~= Seq::<TransferView>::empty());
    assert(response.pairs() =~= seq![
        ("action"@, AttrView::Text("request_withdrawal"@)),
        ("withdrawal_id"@, AttrView::Text(withdrawal_id@)),
        ("recipient"@, AttrView::Text(info.sender@)),
        ("token"@, AttrView::Text(token@)),
        ("amount"@, AttrView::Amount(amount)),
        ("nullifier"@, AttrView::Text(nullifier@)),
        ("zcash_proof"@, AttrView::Text(zcash_proof@)),
        ("merkle_root"@, AttrView::Text(merkle_root@)),
    ]);
    Ok(response)
}

// ============ WITHDRAWAL EXECUTION (Step 2) ============
/// Why the execution of a withdrawal is refused, if it is: the first of
/// these that holds.
pub open spec fn execution_refusal(gateway: Gateway, withdrawal_id: Seq<char>, coordinator_signature: Seq<char>) -> Option<
    ContractError,
> {
    if gateway.config.paused {
        Some(ContractError::Paused)
    } else if !gateway.withdrawal_requests@.dom().contains(withdrawal_id) {
        Some(ContractError::NotFound)
    } else {
        let request = gateway.withdrawal_requests@[withdrawal_id];
        if request.executed {
            Some(ContractError::AlreadyExecuted)
        } else if flag_at(gateway.nullifiers@, request.nullifier@) {
            Some(ContractError::NullifierUsed)
        } else if amount_at(gateway.locked_balances@, request.token@) < request.amount {
            Some(ContractError::InsufficientLockedBalance)
        } else if !signature_in_order(coordinator_signature) {
            Some(ContractError::InvalidSignature)
        } else if gateway.total_withdrawals + request.amount > u128::MAX {
            Some(ContractError::Overflow)
        } else {
            None
        }
    }
}

/// A nullifier is honoured once. Whatever request carries a nullifier that
/// is marked used, and whatever signature comes with it, its execution is
/// refused.
pub proof fn lemma_used_nullifier_is_refused(gateway: Gateway, withdrawal_id: Seq<char>, signature: Seq<char>)
    requires
        gateway.withdrawal_requests@.dom().contains(withdrawal_id),
        flag_at(gateway.nullifiers@, gateway.withdrawal_requests@[withdrawal_id].nullifier@),
    ensures
        execution_refusal(gateway, withdrawal_id, signature) is Some,
{
}

/// The transfer that releases a withdrawal: native funds for the native
/// token, and tokens of the token's contract otherwise.
pub open spec fn release_of(request: WithdrawalRequestInfo) -> TransferView {
    if request.token@ == NATIVE_DENOM@ {
        TransferView::Bank { to_address: request.recipient@, denom: NATIVE_DENOM@, amount: request.amount }
    } else {
        TransferView::Cw20 { contract_addr: request.token@, recipient: request.recipient@, amount: request.amount }
    }
}

/// Executes a withdrawal request that the coordinator has signed: the
/// request is marked executed and its nullifier used, its amount leaves the
/// locked balance of its token, and the transfer to its recipient goes out.
pub fn execute_execute_withdrawal(gateway: &mut Gateway, withdrawal_id: String, coordinator_signature: String) -> (r: Result<
    Response,
    ContractError,
>)
    requires
        old(gateway).wf(),
    ensures
        final(gateway).wf(),
        final(gateway).same_settings(old(gateway)),
        final(gateway).deposits@ == old(gateway).deposits@,
        final(gateway).deposit_count == old(gateway).deposit_count,
        final(gateway).withdrawal_count == old(gateway).withdrawal_count,
        final(gateway).total_deposits == old(gateway).total_deposits,
        match r {
            Err(error) => execution_refusal(*old(gateway), withdrawal_id@, coordinator_signature@) == Some(error)
                && final(gateway).unchanged(old(gateway)),
            Ok(response) => {
                let request = old(gateway).withdrawal_requests@[withdrawal_id@];
                let after = final(gateway).withdrawal_requests@[withdrawal_id@];
                &&& execution_refusal(*old(gateway), withdrawal_id@, coordinator_signature@) is None
                &&& final(gateway).withdrawal_requests@.dom() == old(gateway).withdrawal_requests@.dom()
                &&& forall|other: Seq<char>|
                    other != withdrawal_id@ && old(gateway).withdrawal_requests@.dom().contains(other)
                        ==> #[trigger] final(gateway).withdrawal_requests@[other] == old(gateway).withdrawal_requests@[other]
                &&& after.executed
                &&& after.withdrawal_id == request.withdrawal_id
                &&& after.recipient == request.recipient
                &&& after.token == request.token
                &&& after.amount == request.amount
                &&& after.nullifier == request.nullifier
                &&& after.timestamp == request.timestamp
                &&& final(gateway).nullifiers@ == old(gateway).nullifiers@.insert(request.nullifier@, true)
                &&& final(gateway).locked_balances@ == old(gateway).locked_balances@.insert(
                    request.token@,
                    (amount_at(old(gateway).locked_balances@, request.token@) - request.amount) as u128,
                )
                &&& final(gateway).total_withdrawals == old(gateway).total_withdrawals + request.amount
                &&& response.transfers() == seq![release_of(request)]
                &&& response.pairs() == seq![
                    ("action"@, AttrView::Text("execute_withdrawal"@)),
                    ("withdrawal_id"@, AttrView::Text(withdrawal_id@)),
                    ("recipient"@, AttrView::Text(request.recipient@)),
                    ("token"@, AttrView::Text(request.token@)),
                    ("amount"@, AttrView::Amount(request.amount)),
                    ("nullifier"@, AttrView::Text(request.nullifier@)),
                ]
            },
        },
{
    if gateway.config.paused {
        return Err(ContractError::Paused);
    }
    let key = TextKey(withdrawal_id);
    let (request, locked) = match gateway.withdrawal_requests.get(&key) {
        None => {
            return Err(ContractError::NotFound);
        },
        Some(request) => {
            if request.executed {
                return Err(ContractError::AlreadyExecuted);
            }
            if gateway.nullifier_used(request.nullifier.as_str()) {
                return Err(ContractError::NullifierUsed);
            }
            let locked = gateway.locked(request.token.as_str());
            if locked < request.amount {
                return Err(ContractError::InsufficientLockedBalance);
            }
            if verify_coordinator_signature(
                key.0.as_str(),
                request.recipient.as_str(),
                request.token.as_str(),
                request.amount,
                request.nullifier.as_str(),
                coordinator_signature.as_str(),
            ).is_err() {
                return Err(ContractError::InvalidSignature);
            }
            if request.amount > u128::MAX - gateway.total_withdrawals {
                return Err(ContractError::Overflow);
            }
            (request.duplicate(), locked)
        },
    };
    let ghost before = request;
    let mut updated = request.duplicate();
    updated.executed = true;
    let transfer_msg = if str_eq(request.token.as_str(), NATIVE_DENOM) {
        TransferMsg::Bank { to_address: request.recipient.clone(), denom: NATIVE_DENOM.to_owned(), amount: request.amount }
    } else {
        TransferMsg::Cw20 {
            contract_addr: request.token.clone(),
            recipient: request.recipient.clone(),
            amount: request.amount,
        }
    };
    let mut attributes: Vec<Attribute> = Vec::new();
    attributes.push(text("action", "execute_withdrawal"));
    attributes.push(text("withdrawal_id", key.0.as_str()));
    attributes.push(text("recipient", request.recipient.as_str()));
    attributes.push(text("token", request.token.as_str()));
    attributes.push(amount_of("amount", request.amount));
    attributes.push(text("nullifier", request.nullifier.as_str()));
    let mut messages: Vec<TransferMsg> = Vec::new();
    messages.push(transfer_msg);
    let response = respond(messages, attributes);
    assert(response.transfers() =~= seq![release_of(before)]);
    assert(response.pairs() =~= seq![
        ("action"@, AttrView::Text("execute_withdrawal"@)),
        ("withdrawal_id"@, AttrView::Text(key.0@)),
        ("recipient"@, AttrView::Text(before.recipient@)),
        ("token"@, AttrView::Text(before.token@)),
        ("amount"@, AttrView::Amount(before.amount)),
        ("nullifier"@, AttrView::Text(before.nullifier@)),
    ]);
    gateway.withdrawal_requests.insert(key, updated);
    gateway.nullifiers.insert(TextKey(request.nullifier), true);
    gateway.locked_balances.insert(TextKey(request.token), locked - request.amount);
    gateway.total_withdrawals = gateway.total_withdrawals + request.amount;
    Ok(response)
}

// ============ LIQUIDITY MANAGEMENT ============
/// Takes liquidity of an authorized provider that comes with the message.
/// The books stay as they are.
pub fn execute_add_liquidity(gateway: &Gateway, info: &MessageInfo, token: String) -> (r: Result<Response, ContractError>)
    requires
        gateway.wf(),
    ensures
        match r {
            Ok(response) => {
                &&& !gateway.config.paused
                &&& flag_at(gateway.liquidity_providers@, info.sender@)
                &&& funds_of(info.funds@, token@) > 0
                &&& response.transfers() == Seq::<TransferView>::empty()
                &&& response.pairs() == seq![
                    ("action"@, AttrView::Text("add_liquidity"@)),
                    ("provider"@, AttrView::Text(info.sender@)),
                    ("token"@, AttrView::Text(token@)),
                    ("amount"@, AttrView::Amount(funds_of(info.funds@, token@))),
                ]
            },
            Err(ContractError::Paused) => gateway.config.paused,
            Err(ContractError::Unauthorized) => !gateway.config.paused && !flag_at(
                gateway.liquidity_providers@,
                info.sender@,
            ),
            Err(ContractError::InvalidAmount) => !gateway.config.paused && flag_at(
                gateway.liquidity_providers@,
                info.sender@,
            ) && funds_of(info.funds@, token@) == 0,
            Err(_) => false,
        },
{
    if gateway.config.paused {
        return Err(ContractError::Paused);
    }
    if !gateway.is_provider(info.sender.as_str()) {
        return Err(ContractError::Unauthorized);
    }
    let amount = funds_in(&info.funds, token.as_str());
    if amount == 0 {
        return Err(ContractError::InvalidAmount);
    }
    let mut attributes: Vec<Attribute> = Vec::new();
    attributes.push(text("action", "add_liquidity"));
    attributes.push(text("provider", info.sender.as_str()));
    attributes.push(text("token", token.as_str()));
    attributes.push(amount_of("amount", amount));
    let response = respond(Vec::new(), attributes);
    assert(response.transfers() =~= Seq::<TransferView>::empty());
    assert(response.pairs() =~= seq![
        ("action"@, AttrView::Text("add_liquidity"@)),
        ("provider"@, AttrView::Text(info.sender@)),
        ("token"@, AttrView::Text(token@)),
        ("amount"@, AttrView::Amount(amount)),
    ]);
    Ok(response)
}

/// The liquidity of a token that can be taken out: none is on record.
pub fn query_available_liquidity(_gateway: &Gateway, _token: &str) -> (amount: u128)
    ensures
        amount == 0,
{
    0
}

/// Hands liquidity back to an authorized provider, as far as liquidity is
/// available. None is on record as available, so every request is refused.
pub fn execute_remove_liquidity(gateway: &Gateway, info: &MessageInfo, token: String, amount: u128) -> (r: Result<
    Response,
    ContractError,
>)
    requires
        gateway.wf(),
    ensures
        match r {
            Ok(_) => false,
            Err(ContractError::Paused) => gateway.config.paused,
            Err(ContractError::Unauthorized) => !gateway.config.paused && !flag_at(
                gateway.liquidity_providers@,
                info.sender@,
            ),
            Err(ContractError::InvalidAmount) => !gateway.config.paused && flag_at(
                gateway.liquidity_providers@,
                info.sender@,
            ) && amount == 0,
            Err(ContractError::InsufficientLiquidity) => !gateway.config.paused && flag_at(
                gateway.liquidity_providers@,
                info.sender@,
            ) && amount > 0,
            Err(_) => false,
        },
{
    if gateway.config.paused {
        return Err(ContractError::Paused);
    }
    if !gateway.is_provider(info.sender.as_str()) {
        return Err(ContractError::Unauthorized);
    }
    if amount == 0 {
        return Err(ContractError::InvalidAmount);
    }
    let available = query_available_liquidity(gateway, token.as_str());
    if available < amount {
        return Err(ContractError::InsufficientLiquidity);
    }
    let mut messages: Vec<TransferMsg> = Vec::new();
    messages.push(TransferMsg::Bank { to_address: info.sender.clone(), denom: token.clone(), amount });
    let mut attributes: Vec<Attribute> = Vec::new();
    attributes.push(text("action", "remove_liquidity"));
    attributes.push(text("provider", info.sender.as_str()));
    attributes.push(text("token", token.as_str()));
    attributes.push(amount_of("amount", amount));
    Ok(respond(messages, attributes))
}

// ============ ADMIN FUNCTIONS ============
/// Puts a new coordinator in place. Only the owner may.
pub fn execute_set_coordinator(gateway: &mut Gateway, info: &MessageInfo, new_coordinator: String) -> (r: Result<
    Response,
    ContractError,
>)
    requires
        old(gateway).wf(),
    ensures
        final(gateway).wf(),
        final(gateway).same_books(old(gateway)),
        final(gateway).liquidity_providers@ == old(gateway).liquidity_providers@,
        final(gateway).config.owner == old(gateway).config.owner,
        final(gateway).config.paused == old(gateway).config.paused,
        final(gateway).config.bridge_fee == old(gateway).config.bridge_fee,
        match r {
            Ok(response) => {
                &&& info.sender@ == old(gateway).config.owner@
                &&& final(gateway).config.coordinator@ == new_coordinator@
                &&& response.transfers() == Seq::<TransferView>::empty()
                &&& response.pairs() == seq![
                    ("action"@, AttrView::Text("set_coordinator"@)),
                    ("old_coordinator"@, AttrView::Text(old(gateway).config.coordinator@)),
                    ("new_coordinator"@, AttrView::Text(new_coordinator@)),
                ]
            },
            Err(error) => error == ContractError::Unauthorized && info.sender@ != old(gateway).config.owner@ && final(gateway).config.coordinator == old(gateway).config.coordinator,
        },
{
    if !gateway.is_owner(info) {
        return Err(ContractError::Unauthorized);
    }
    let mut attributes: Vec<Attribute> = Vec::new();
    attributes.push(text("action", "set_coordinator"));
    attributes.push(text("old_coordinator", gateway.config.coordinator.as_str()));
    attributes.push(text("new_coordinator", new_coordinator.as_str()));
    let response = respond(Vec::new(), attributes);
    assert(response.transfers() =~= Seq::<TransferView>::empty());
    assert(response.pairs() =~= seq![
        ("action"@, AttrView::Text("set_coordinator"@)),
        ("old_coordinator"@, AttrView::Text(gateway.config.coordinator@)),
        ("new_coordinator"@, AttrView::Text(new_coordinator@)),
    ]);
    gateway.config.coordinator = new_coordinator;
    Ok(response)
}

fn set_provider(gateway: &mut Gateway, info: &MessageInfo, provider: String, allowed: bool, action: &str) -> (r: Result<
    Response,
    ContractError,
>)
    requires
        old(gateway).wf(),
    ensures
        final(gateway).wf(),
        final(gateway).same_books(old(gateway)),
        final(gateway).config == old(gateway).config,
        match r {
            Ok(response) => {
                &&& info.sender@ == old(gateway).config.owner@
                &&& final(gateway).liquidity_providers@ == old(gateway).liquidity_providers@.insert(provider@, allowed)
                &&& response.transfers() == Seq::<TransferView>::empty()
                &&& response.pairs() == seq![
                    ("action"@, AttrView::Text(action@)),
                    ("provider"@, AttrView::Text(provider@)),
                ]
            },
            Err(error) => error == ContractError::Unauthorized && info.sender@ != old(gateway).config.owner@ && final(gateway).liquidity_providers@ == old(gateway).liquidity_providers@,
        },
{
    if !gateway.is_owner(info) {
        return Err(ContractError::Unauthorized);
    }
    let mut attributes: Vec<Attribute> = Vec::new();
    attributes.push(text("action", action));
    attributes.push(text("provider", provider.as_str()));
    let response = respond(Vec::new(), attributes);
    assert(response.transfers() =~= Seq::<TransferView>::empty());
    assert(response.pairs() =~= seq![("action"@, AttrView::Text(action@)), ("provider"@, AttrView::Text(provider@))]);
    gateway.liquidity_providers.insert(TextKey(provider), allowed);
    Ok(response)
}

/// Lets a provider add liquidity. Only the owner may.
pub fn execute_add_liquidity_provider(gateway: &mut Gateway, info: &MessageInfo, provider: String) -> (r: Result<
    Response,
    ContractError,
>)
    requires
        old(gateway).wf(),
    ensures
        final(gateway).wf(),
        final(gateway).same_books(old(gateway)),
        final(gateway).config == old(gateway).config,
        match r {
            Ok(response) => {
                &&& info.sender@ == old(gateway).config.owner@
                &&& final(gateway).liquidity_providers@ == old(gateway).liquidity_providers@.insert(provider@, true)
                &&& response.transfers() == Seq::<TransferView>::empty()
                &&& response.pairs() == seq![
                    ("action"@, AttrView::Text("add_liquidity_provider"@)),
                    ("provider"@, AttrView::Text(provider@)),
                ]
            },
            Err(error) => error == ContractError::Unauthorized && info.sender@ != old(gateway).config.owner@ && final(gateway).liquidity_providers@ == old(gateway).liquidity_providers@,
        },
{
    set_provider(gateway, info, provider, true, "add_liquidity_provider")
}

/// Stops a provider from adding liquidity. Only the owner may.
pub fn execute_remove_liquidity_provider(gateway: &mut Gateway, info: &MessageInfo, provider: String) -> (r: Result<
    Response,
    ContractError,
>)
    requires
        old(gateway).wf(),
    ensures
        final(gateway).wf(),
        final(gateway).same_books(old(gateway)),
        final(gateway).config == old(gateway).config,
        match r {
            Ok(response) => {
                &&& info.sender@ == old(gateway).config.owner@
                &&& final(gateway).liquidity_providers@ == old(gateway).liquidity_providers@.insert(provider@, false)
                &&& response.transfers() == Seq::<TransferView>::empty()
                &&& response.pairs() == seq![
                    ("action"@, AttrView::Text("remove_liquidity_provider"@)),
                    ("provider"@, AttrView::Text(provider@)),
                ]
            },
            Err(error) => error == ContractError::Unauthorized && info.sender@ != old(gateway).config.owner@ && final(gateway).liquidity_providers@ == old(gateway).liquidity_providers@,
        },
{
    set_provider(gateway, info, provider, false, "remove_liquidity_provider")
}

/// Pauses the gateway or takes the pause off. Only the owner may.
pub fn execute_set_paused(gateway: &mut Gateway, info: &MessageInfo, paused: bool) -> (r: Result<Response, ContractError>)
    requires
        old(gateway).wf(),
    ensures
        final(gateway).wf(),
        final(gateway).same_books(old(gateway)),
        final(gateway).liquidity_providers@ == old(gateway).liquidity_providers@,
        final(gateway).config.owner == old(gateway).config.owner,
        final(gateway).config.coordinator == old(gateway).config.coordinator,
        final(gateway).config.bridge_fee == old(gateway).config.bridge_fee,
        match r {
            Ok(response) => {
                &&& info.sender@ == old(gateway).config.owner@
                &&& final(gateway).config.paused == paused
                &&& response.transfers() == Seq::<TransferView>::empty()
                &&& response.pairs() == seq![
                    ("action"@, AttrView::Text("set_paused"@)),
                    ("paused"@, AttrView::Flag(paused)),
                ]
            },
            Err(error) => error == ContractError::Unauthorized && info.sender@ != old(gateway).config.owner@ && final(gateway).config.paused == old(gateway).config.paused,
        },
{
    if !gateway.is_owner(info) {
        return Err(ContractError::Unauthorized);
    }
    gateway.config.paused = paused;
    let mut attributes: Vec<Attribute> = Vec::new();
    attributes.push(text("action", "set_paused"));
    attributes.push(flag("paused", paused));
    let response = respond(Vec::new(), attributes);
    assert(response.transfers() =~= Seq::<TransferView>::empty());
    assert(response.pairs() =~= seq![("action"@, AttrView::Text("set_paused"@)), ("paused"@, AttrView::Flag(paused))]);
    Ok(response)
}

/// Sets the bridge fee, of one percent at most. Only the owner may.
pub fn execute_set_bridge_fee(gateway: &mut Gateway, info: &MessageInfo, new_fee: u16) -> (r: Result<
    Response,
    ContractError,
>)
    requires
        old(gateway).wf(),
    ensures
        final(gateway).wf(),
        final(gateway).same_books(old(gateway)),
        final(gateway).liquidity_providers@ == old(gateway).liquidity_providers@,
        final(gateway).config.owner == old(gateway).config.owner,
        final(gateway).config.coordinator == old(gateway).config.coordinator,
        final(gateway).config.paused == old(gateway).config.paused,
        match r {
            Ok(response) => {
                &&& info.sender@ == old(gateway).config.owner@
                &&& new_fee <= MAX_BRIDGE_FEE
                &&& final(gateway).config.bridge_fee == new_fee
                &&& response.transfers() == Seq::<TransferView>::empty()
                &&& response.pairs() == seq![
                    ("action"@, AttrView::Text("set_bridge_fee"@)),
                    ("old_fee"@, AttrView::Number(old(gateway).config.bridge_fee as u64)),
                    ("new_fee"@, AttrView::Number(new_fee as u64)),
                ]
            },
            Err(ContractError::Unauthorized) => info.sender@ != old(gateway).config.owner@ && final(gateway).config.bridge_fee == old(gateway).config.bridge_fee,
            Err(ContractError::FeeTooHigh) => info.sender@ == old(gateway).config.owner@ && new_fee > MAX_BRIDGE_FEE
                && final(gateway).config.bridge_fee == old(gateway).config.bridge_fee,
            Err(_) => false,
        },
{
    if !gateway.is_owner(info) {
        return Err(ContractError::Unauthorized);
    }
    if new_fee > MAX_BRIDGE_FEE {
        return Err(ContractError::FeeTooHigh);
    }
    let old_fee = gateway.config.bridge_fee;
    gateway.config.bridge_fee = new_fee;
    let mut attributes: Vec<Attribute> = Vec::new();
    attributes.push(text("action", "set_bridge_fee"));
    attributes.push(number("old_fee", old_fee as u64));
    attributes.push(number("new_fee", new_fee as u64));
    let response = respond(Vec::new(), attributes);
    assert(response.transfers() =~= Seq::<TransferView>::empty());
    assert(response.pairs() =~= seq![
        ("action"@, AttrView::Text("set_bridge_fee"@)),
        ("old_fee"@, AttrView::Number(old_fee as u64)),
        ("new_fee"@, AttrView::Number(new_fee as u64)),
    ]);
    Ok(response)
}

/// Sends funds out of a paused gateway. Only the owner may. The books stay
/// as they are.
pub fn execute_emergency_withdraw(gateway: &Gateway, info: &MessageInfo, token: String, to: String, amount: u128) -> (r:
    Result<Response, ContractError>)
    ensures
        match r {
            Ok(response) => {
                &&& info.sender@ == gateway.config.owner@
                &&& gateway.config.paused
                &&& amount > 0
                &&& response.transfers() == seq![TransferView::Bank { to_address: to@, denom: token@, amount }]
                &&& response.pairs() == seq![
                    ("action"@, AttrView::Text("emergency_withdraw"@)),
                    ("token"@, AttrView::Text(token@)),
                    ("to"@, AttrView::Text(to@)),
                    ("amount"@, AttrView::Amount(amount)),
                ]
            },
            Err(ContractError::Unauthorized) => info.sender@ != gateway.config.owner@,
            Err(ContractError::MustBePaused) => info.sender@ == gateway.config.owner@ && !gateway.config.paused,
            Err(ContractError::InvalidAmount) => info.sender@ == gateway.config.owner@ && gateway.config.paused
                && amount == 0,
            Err(_) => false,
        },
{
    if !gateway.is_owner(info) {
        return Err(ContractError::Unauthorized);
    }
    if !gateway.config.paused {
        return Err(ContractError::MustBePaused);
    }
    if amount == 0 {
        return Err(ContractError::InvalidAmount);
    }
    let mut attributes: Vec<Attribute> = Vec::new();
    attributes.push(text("action", "emergency_withdraw"));
    attributes.push(text("token", token.as_str()));
    attributes.push(text("to", to.as_str()));
    attributes.push(amount_of("amount", amount));
    let mut messages: Vec<TransferMsg> = Vec::new();
    messages.push(TransferMsg::Bank { to_address: to.clone(), denom: token.clone(), amount });
    let response = respond(messages, attributes);
    assert(response.transfers() =~= seq![TransferView::Bank { to_address: to@, denom: token@, amount }]);
    assert(response.pairs() =~= seq![
        ("action"@, AttrView::Text("emergency_withdraw"@)),
        ("token"@, AttrView::Text(token@)),
        ("to"@, AttrView::Text(to@)),
        ("amount"@, AttrView::Amount(amount)),
    ]);
    Ok(response)
}

// ============ Execute ============
/// Takes a message: each kind of message goes to its handler, and the
/// outcome is the handler's.
pub fn execute(gateway: &mut Gateway, env: Env, info: &MessageInfo, msg: ExecuteMsg) -> (r: Result<Response, ContractError>)
    requires
        old(gateway).wf(),
    ensures
        final(gateway).wf(),
        r is Err ==> final(gateway).unchanged(old(gateway)),
        match msg {
            ExecuteMsg::Deposit { target_chain_id, recipient, zcash_address } => {
                &&& final(gateway).wf()
                &&& final(gateway).same_settings(old(gateway))
                &&& final(gateway).withdrawal_requests@ == old(gateway).withdrawal_requests@
                &&& final(gateway).nullifiers@ == old(gateway).nullifiers@
                &&& final(gateway).withdrawal_count == old(gateway).withdrawal_count
                &&& final(gateway).total_withdrawals == old(gateway).total_withdrawals
                &&& match r {
                    Err(error) => deposit_refusal(*old(gateway), *info, recipient@, zcash_address@) == Some(error) && final(gateway).unchanged(old(gateway)),
                    Ok(response) => {
                        let amount = funds_of(info.funds@, NATIVE_DENOM@);
                        let net = net_of(amount, old(gateway).config.bridge_fee);
                        let id = deposit_id_of(
                            info.sender@,
                            NATIVE_DENOM@,
                            amount,
                            target_chain_id,
                            recipient@,
                            old(gateway).deposit_count,
                            env.time_seconds,
                        );
                        let stored = final(gateway).deposits@[id];
                        &&& deposit_refusal(*old(gateway), *info, recipient@, zcash_address@) is None
                        &&& final(gateway).deposits@.dom() == old(gateway).deposits@.dom().insert(id)
                        &&& forall|other: Seq<char>|
                            other != id && old(gateway).deposits@.dom().contains(other) ==> #[trigger] final(gateway).deposits@[other] == old(gateway).deposits@[other]
                        &&& stored.deposit_id@ == id
                        &&& stored.sender@ == info.sender@
                        &&& stored.token@ == NATIVE_DENOM@
                        &&& stored.amount == net
                        &&& stored.target_chain_id == target_chain_id
                        &&& stored.recipient@ == recipient@
                        &&& stored.zcash_address@ == zcash_address@
                        &&& stored.timestamp == env.time_seconds
                        &&& !stored.processed
                        &&& final(gateway).locked_balances@ == old(gateway).locked_balances@.insert(
                            NATIVE_DENOM@,
                            (amount_at(old(gateway).locked_balances@, NATIVE_DENOM@) + net) as u128,
                        )
                        &&& final(gateway).total_deposits == old(gateway).total_deposits + net
                        &&& final(gateway).deposit_count == old(gateway).deposit_count + 1
                        &&& response.transfers() == Seq::<TransferView>::empty()
                        &&& response.pairs() == seq![
                            ("action"@, AttrView::Text("deposit"@)),
                            ("deposit_id"@, AttrView::Text(id)),
                            ("sender"@, AttrView::Text(info.sender@)),
                            ("amount"@, AttrView::Amount(net)),
                            ("target_chain_id"@, AttrView::Number(target_chain_id)),
                            ("recipient"@, AttrView::Text(recipient@)),
                            ("zcash_address"@, AttrView::Text(zcash_address@)),
                        ]
                    },
                }
            },
            ExecuteMsg::RequestWithdrawal { token, amount, nullifier, zcash_proof, merkle_root } => {
                &&& final(gateway).wf()
                &&& final(gateway).same_settings(old(gateway))
                &&& final(gateway).deposits@ == old(gateway).deposits@
                &&& final(gateway).nullifiers@ == old(gateway).nullifiers@
                &&& final(gateway).locked_balances@ == old(gateway).locked_balances@
                &&& final(gateway).deposit_count == old(gateway).deposit_count
                &&& final(gateway).total_deposits == old(gateway).total_deposits
                &&& final(gateway).total_withdrawals == old(gateway).total_withdrawals
                &&& match r {
                    Err(error) => request_refusal(*old(gateway), amount, nullifier@, merkle_root@) == Some(error) && final(gateway).unchanged(old(gateway)),
                    Ok(response) => {
                        let id = withdrawal_id_of(
                            info.sender@,
                            token@,
                            amount,
                            nullifier@,
                            old(gateway).withdrawal_count,
                            env.time_seconds,
                        );
                        let stored = final(gateway).withdrawal_requests@[id];
                        &&& request_refusal(*old(gateway), amount, nullifier@, merkle_root@) is None
                        &&& final(gateway).withdrawal_requests@.dom() == old(gateway).withdrawal_requests@.dom().insert(id)
                        &&& forall|other: Seq<char>|
                            other != id && old(gateway).withdrawal_requests@.dom().contains(other) ==> #[trigger] final(gateway).withdrawal_requests@[other] == old(gateway).withdrawal_requests@[other]
                        &&& stored.withdrawal_id@ == id
                        &&& stored.recipient@ == info.sender@
                        &&& stored.token@ == token@
                        &&& stored.amount == amount
                        &&& stored.nullifier@ == nullifier@
                        &&& stored.timestamp == env.time_seconds
                        &&& !stored.executed
                        &&& final(gateway).withdrawal_count == old(gateway).withdrawal_count + 1
                        &&& response.transfers() == Seq::<TransferView>::empty()
                        &&& response.pairs() == seq![
                            ("action"@, AttrView::Text("request_withdrawal"@)),
                            ("withdrawal_id"@, AttrView::Text(id)),
                            ("recipient"@, AttrView::Text(info.sender@)),
                            ("token"@, AttrView::Text(token@)),
                            ("amount"@, AttrView::Amount(amount)),
                            ("nullifier"@, AttrView::Text(nullifier@)),
                            ("zcash_proof"@, AttrView::Text(zcash_proof@)),
                            ("merkle_root"@, AttrView::Text(merkle_root@)),
                        ]
                    },
                }
            },
            ExecuteMsg::ExecuteWithdrawal { withdrawal_id, coordinator_signature } => {
                &&& final(gateway).wf()
                &&& final(gateway).same_settings(old(gateway))
                &&& final(gateway).deposits@ == old(gateway).deposits@
                &&& final(gateway).deposit_count == old(gateway).deposit_count
                &&& final(gateway).withdrawal_count == old(gateway).withdrawal_count
                &&& final(gateway).total_deposits == old(gateway).total_deposits
                &&& match r {
                    Err(error) => execution_refusal(*old(gateway), withdrawal_id@, coordinator_signature@) == Some(error)
                        && final(gateway).unchanged(old(gateway)),
                    Ok(response) => {
                        let request = old(gateway).withdrawal_requests@[withdrawal_id@];
                        let after = final(gateway).withdrawal_requests@[withdrawal_id@];
                        &&& execution_refusal(*old(gateway), withdrawal_id@, coordinator_signature@) is None
                        &&& final(gateway).withdrawal_requests@.dom() == old(gateway).withdrawal_requests@.dom()
                        &&& forall|other: Seq<char>|
                            other != withdrawal_id@ && old(gateway).withdrawal_requests@.dom().contains(other)
                                ==> #[trigger] final(gateway).withdrawal_requests@[other] == old(gateway).withdrawal_requests@[other]
                        &&& after.executed
                        &&& after.withdrawal_id == request.withdrawal_id
                        &&& after.recipient == request.recipient
                        &&& after.token == request.token
                        &&& after.amount == request.amount
                        &&& after.nullifier == request.nullifier
                        &&& after.timestamp == request.timestamp
                        &&& final(gateway).nullifiers@ == old(gateway).nullifiers@.insert(request.nullifier@, true)
                        &&& final(gateway).locked_balances@ == old(gateway).locked_balances@.insert(
                            request.token@,
                            (amount_at(old(gateway).locked_balances@, request.token@) - request.amount) as u128,
                        )
                        &&& final(gateway).total_withdrawals == old(gateway).total_withdrawals + request.amount
                        &&& response.transfers() == seq![release_of(request)]
                        &&& response.pairs() == seq![
                            ("action"@, AttrView::Text("execute_withdrawal"@)),
                            ("withdrawal_id"@, AttrView::Text(withdrawal_id@)),
                            ("recipient"@, AttrView::Text(request.recipient@)),
                            ("token"@, AttrView::Text(request.token@)),
                            ("amount"@, AttrView::Amount(request.amount)),
                            ("nullifier"@, AttrView::Text(request.nullifier@)),
                        ]
                    },
                }
            },
            ExecuteMsg::AddLiquidity { token } => {
                &&& match r {
                    Ok(response) => {
                        &&& !old(gateway).config.paused
                        &&& flag_at(old(gateway).liquidity_providers@, info.sender@)
                        &&& funds_of(info.funds@, token@) > 0
                        &&& response.transfers() == Seq::<TransferView>::empty()
                        &&& response.pairs() == seq![
                            ("action"@, AttrView::Text("add_liquidity"@)),
                            ("provider"@, AttrView::Text(info.sender@)),
                            ("token"@, AttrView::Text(token@)),
                            ("amount"@, AttrView::Amount(funds_of(info.funds@, token@))),
                        ]
                    },
                    Err(ContractError::Paused) => old(gateway).config.paused,
                    Err(ContractError::Unauthorized) => !old(gateway).config.paused && !flag_at(
                        old(gateway).liquidity_providers@,
                        info.sender@,
                    ),
                    Err(ContractError::InvalidAmount) => !old(gateway).config.paused && flag_at(
                        old(gateway).liquidity_providers@,
                        info.sender@,
                    ) && funds_of(info.funds@, token@) == 0,
                    Err(_) => false,
                }
                &&& final(gateway).unchanged(old(gateway))
            },
            ExecuteMsg::RemoveLiquidity { token, amount } => {
                &&& match r {
                    Ok(_) => false,
                    Err(ContractError::Paused) => old(gateway).config.paused,
                    Err(ContractError::Unauthorized) => !old(gateway).config.paused && !flag_at(
                        old(gateway).liquidity_providers@,
                        info.sender@,
                    ),
                    Err(ContractError::InvalidAmount) => !old(gateway).config.paused && flag_at(
                        old(gateway).liquidity_providers@,
                        info.sender@,
                    ) && amount == 0,
                    Err(ContractError::InsufficientLiquidity) => !old(gateway).config.paused && flag_at(
                        old(gateway).liquidity_providers@,
                        info.sender@,
                    ) && amount > 0,
                    Err(_) => false,
                }
                &&& final(gateway).unchanged(old(gateway))
            },
            ExecuteMsg::SetCoordinator { new_coordinator } => {
                &&& final(gateway).wf()
                &&& final(gateway).same_books(old(gateway))
                &&& final(gateway).liquidity_providers@ == old(gateway).liquidity_providers@
                &&& final(gateway).config.owner == old(gateway).config.owner
                &&& final(gateway).config.paused == old(gateway).config.paused
                &&& final(gateway).config.bridge_fee == old(gateway).config.bridge_fee
                &&& match r {
                    Ok(response) => {
                        &&& info.sender@ == old(gateway).config.owner@
                        &&& final(gateway).config.coordinator@ == new_coordinator@
                        &&& response.transfers() == Seq::<TransferView>::empty()
                        &&& response.pairs() == seq![
                            ("action"@, AttrView::Text("set_coordinator"@)),
                            ("old_coordinator"@, AttrView::Text(old(gateway).config.coordinator@)),
                            ("new_coordinator"@, AttrView::Text(new_coordinator@)),
                        ]
                    },
                    Err(error) => error == ContractError::Unauthorized && info.sender@ != old(gateway).config.owner@ && final(gateway).config.coordinator == old(gateway).config.coordinator,
                }
            },
            ExecuteMsg::AddLiquidityProvider { provider } => {
                &&& final(gateway).wf()
                &&& final(gateway).same_books(old(gateway))
                &&& final(gateway).config == old(gateway).config
                &&& match r {
                    Ok(response) => {
                        &&& info.sender@ == old(gateway).config.owner@
                        &&& final(gateway).liquidity_providers@ == old(gateway).liquidity_providers@.insert(provider@, true)
                        &&& response.transfers() == Seq::<TransferView>::empty()
                        &&& response.pairs() == seq![
                            ("action"@, AttrView::Text("add_liquidity_provider"@)),
                            ("provider"@, AttrView::Text(provider@)),
                        ]
                    },
                    Err(error) => error == ContractError::Unauthorized && info.sender@ != old(gateway).config.owner@ && final(gateway).liquidity_providers@ == old(gateway).liquidity_providers@,
                }
            },
            ExecuteMsg::RemoveLiquidityProvider { provider } => {
                &&& final(gateway).wf()
                &&& final(gateway).same_books(old(gateway))
                &&& final(gateway).config == old(gateway).config
                &&& match r {
                    Ok(response) => {
                        &&& info.sender@ == old(gateway).config.owner@
                        &&& final(gateway).liquidity_providers@ == old(gateway).liquidity_providers@.insert(provider@, false)
                        &&& response.transfers() == Seq::<TransferView>::empty()
                        &&& response.pairs() == seq![
                            ("action"@, AttrView::Text("remove_liquidity_provider"@)),
                            ("provider"@, AttrView::Text(provider@)),
                        ]
                    },
                    Err(error) => error == ContractError::Unauthorized && info.sender@ != old(gateway).config.owner@ && final(gateway).liquidity_providers@ == old(gateway).liquidity_providers@,
                }
            },
            ExecuteMsg::SetPaused { paused } => {
                &&& final(gateway).wf()
                &&& final(gateway).same_books(old(gateway))
                &&& final(gateway).liquidity_providers@ == old(gateway).liquidity_providers@
                &&& final(gateway).config.owner == old(gateway).config.owner
                &&& final(gateway).config.coordinator == old(gateway).config.coordinator
                &&& final(gateway).config.bridge_fee == old(gateway).config.bridge_fee
                &&& match r {
                    Ok(response) => {
                        &&& info.sender@ == old(gateway).config.owner@
                        &&& final(gateway).config.paused == paused
                        &&& response.transfers() == Seq::<TransferView>::empty()
                        &&& response.pairs() == seq![
                            ("action"@, AttrView::Text("set_paused"@)),
                            ("paused"@, AttrView::Flag(paused)),
                        ]
                    },
                    Err(error) => error == ContractError::Unauthorized && info.sender@ != old(gateway).config.owner@ && final(gateway).config.paused == old(gateway).config.paused,
                }
            },
            ExecuteMsg::SetBridgeFee { new_fee } => {
                &&& final(gateway).wf()
                &&& final(gateway).same_books(old(gateway))
                &&& final(gateway).liquidity_providers@ == old(gateway).liquidity_providers@
                &&& final(gateway).config.owner == old(gateway).config.owner
                &&& final(gateway).config.coordinator == old(gateway).config.coordinator
                &&& final(gateway).config.paused == old(gateway).config.paused
                &&& match r {
                    Ok(response) => {
                        &&& info.sender@ == old(gateway).config.owner@
                        &&& new_fee <= MAX_BRIDGE_FEE
                        &&& final(gateway).config.bridge_fee == new_fee
                        &&& response.transfers() == Seq::<TransferView>::empty()
                        &&& response.pairs() == seq![
                            ("action"@, AttrView::Text("set_bridge_fee"@)),
                            ("old_fee"@, AttrView::Number(old(gateway).config.bridge_fee as u64)),
                            ("new_fee"@, AttrView::Number(new_fee as u64)),
                        ]
                    },
                    Err(ContractError::Unauthorized) => info.sender@ != old(gateway).config.owner@ && final(gateway).config.bridge_fee == old(gateway).config.bridge_fee,
                    Err(ContractError::FeeTooHigh) => info.sender@ == old(gateway).config.owner@ && new_fee > MAX_BRIDGE_FEE
                        && final(gateway).config.bridge_fee == old(gateway).config.bridge_fee,
                    Err(_) => false,
                }
            },
            ExecuteMsg::EmergencyWithdraw { token, to, amount } => {
                &&& match r {
                    Ok(response) => {
                        &&& info.sender@ == old(gateway).config.owner@
                        &&& old(gateway).config.paused
                        &&& amount > 0
                        &&& response.transfers() == seq![TransferView::Bank { to_address: to@, denom: token@, amount }]
                        &&& response.pairs() == seq![
                            ("action"@, AttrView::Text("emergency_withdraw"@)),
                            ("token"@, AttrView::Text(token@)),
                            ("to"@, AttrView::Text(to@)),
                            ("amount"@, AttrView::Amount(amount)),
                        ]
                    },
                    Err(ContractError::Unauthorized) => info.sender@ != old(gateway).config.owner@,
                    Err(ContractError::MustBePaused) => info.sender@ == old(gateway).config.owner@ && !old(gateway).config.paused,
                    Err(ContractError::InvalidAmount) => info.sender@ == old(gateway).config.owner@ && old(gateway).config.paused
                        && amount == 0,
                    Err(_) => false,
                }
                &&& final(gateway).unchanged(old(gateway))
            },
        },
{
    match msg {
        ExecuteMsg::Deposit { target_chain_id, recipient, zcash_address } => execute_deposit(gateway, env, info, target_chain_id, recipient, zcash_address),
        ExecuteMsg::RequestWithdrawal { token, amount, nullifier, zcash_proof, merkle_root } => execute_request_withdrawal(gateway, env, info, token, amount, nullifier, zcash_proof, merkle_root),
        ExecuteMsg::ExecuteWithdrawal { withdrawal_id, coordinator_signature } => execute_execute_withdrawal(gateway, withdrawal_id, coordinator_signature),
        ExecuteMsg::AddLiquidity { token } => execute_add_liquidity(gateway, info, token),
        ExecuteMsg::RemoveLiquidity { token, amount } => execute_remove_liquidity(gateway, info, token, amount),
        ExecuteMsg::SetCoordinator { new_coordinator } => execute_set_coordinator(gateway, info, new_coordinator),
        ExecuteMsg::AddLiquidityProvider { provider } => execute_add_liquidity_provider(gateway, info, provider),
        ExecuteMsg::RemoveLiquidityProvider { provider } => execute_remove_liquidity_provider(gateway, info, provider),
        ExecuteMsg::SetPaused { paused } => execute_set_paused(gateway, info, paused),
        ExecuteMsg::SetBridgeFee { new_fee } => execute_set_bridge_fee(gateway, info, new_fee),
        ExecuteMsg::EmergencyWithdraw { token, to, amount } => execute_emergency_withdraw(gateway, info, token, to, amount),
    }
}

// ============ Query ============
pub fn query_locked_balance(gateway: &Gateway, token: &str) -> (balance: u128)
    requires
        gateway.wf(),
    ensures
        balance == amount_at(gateway.locked_balances@, token@),
{
    gateway.locked(token)
}

pub fn query_is_nullifier_used(gateway: &Gateway, nullifier: &str) -> (b: bool)
    requires
        gateway.wf(),
    ensures
        b == flag_at(gateway.nullifiers@, nullifier@),
{
    gateway.nullifier_used(nullifier)
}

pub fn query_deposit(gateway: &Gateway, deposit_id: &str) -> (r: Result<DepositInfo, ContractError>)
    requires
        gateway.wf(),
    ensures
        match r {
            Ok(info) => gateway.deposits@.dom().contains(deposit_id@) && info == gateway.deposits@[deposit_id@],
            Err(error) => error == ContractError::NotFound && !gateway.deposits@.dom().contains(deposit_id@),
        },
{
    match gateway.deposits.get(&TextKey(deposit_id.to_owned())) {
        Some(info) => Ok(info.duplicate()),
        None => Err(ContractError::NotFound),
    }
}

pub fn query_withdrawal_request(gateway: &Gateway, withdrawal_id: &str) -> (r: Result<
    WithdrawalRequestInfo,
    ContractError,
>)
    requires
        gateway.wf(),
    ensures
        match r {
            Ok(request) => gateway.withdrawal_requests@.dom().contains(withdrawal_id@) && request
                == gateway.withdrawal_requests@[withdrawal_id@],
            Err(error) => error == ContractError::NotFound && !gateway.withdrawal_requests@.dom().contains(
                withdrawal_id@,
            ),
        },
{
    match gateway.withdrawal_requests.get(&TextKey(withdrawal_id.to_owned())) {
        Some(request) => Ok(request.duplicate()),
        None => Err(ContractError::NotFound),
    }
}

/// The totals of the gateway. The active deposits are the deposits less
/// the withdrawals, and nothing where the withdrawals exceed the deposits.
pub fn query_stats(gateway: &Gateway) -> (r: Result<BridgeStats, ContractError>)
    ensures
        match r {
            Ok(stats) => {
                &&& stats.total_deposits == gateway.total_deposits
                &&& stats.total_withdrawals == gateway.total_withdrawals
                &&& stats.total_volume == gateway.total_deposits + gateway.total_withdrawals
                &&& stats.active_deposits == if gateway.total_deposits >= gateway.total_withdrawals {
                    (gateway.total_deposits - gateway.total_withdrawals) as u128
                } else {
                    0
                }
            },
            Err(error) => error == ContractError::Overflow && gateway.total_deposits + gateway.total_withdrawals
                > u128::MAX,
        },
{
    let total_volume = match gateway.total_deposits.checked_add(gateway.total_withdrawals) {
        Some(sum) => sum,
        None => {
            return Err(ContractError::Overflow);
        },
    };
    Ok(
        BridgeStats {
            total_deposits: gateway.total_deposits,
            total_withdrawals: gateway.total_withdrawals,
            total_volume,
            active_deposits: if gateway.total_deposits >= gateway.total_withdrawals {
                gateway.total_deposits - gateway.total_withdrawals
            } else {
                0
            },
        },
    )
}

/// Answers a query.
pub fn query(gateway: &Gateway, msg: QueryMsg) -> (r: Result<QueryResponse, ContractError>)
    requires
        gateway.wf(),
    ensures
        match msg {
            QueryMsg::GetLockedBalance { token } => r matches Ok(QueryResponse::LockedBalance(balance)) && balance
                == amount_at(gateway.locked_balances@, token@),
            QueryMsg::GetAvailableLiquidity { token } => r matches Ok(QueryResponse::AvailableLiquidity(amount))
                && amount == 0,
            QueryMsg::IsNullifierUsed { nullifier } => r matches Ok(QueryResponse::NullifierUsed(b)) && b == flag_at(
                gateway.nullifiers@,
                nullifier@,
            ),
            QueryMsg::GetDeposit { deposit_id } => match r {
                Ok(QueryResponse::Deposit(info)) => gateway.deposits@.dom().contains(deposit_id@) && info
                    == gateway.deposits@[deposit_id@],
                Ok(_) => false,
                Err(error) => error == ContractError::NotFound && !gateway.deposits@.dom().contains(deposit_id@),
            },
            QueryMsg::GetWithdrawalRequest { withdrawal_id } => match r {
                Ok(QueryResponse::WithdrawalRequest(request)) => gateway.withdrawal_requests@.dom().contains(
                    withdrawal_id@,
                ) && request == gateway.withdrawal_requests@[withdrawal_id@],
                Ok(_) => false,
                Err(error) => error == ContractError::NotFound && !gateway.withdrawal_requests@.dom().contains(
                    withdrawal_id@,
                ),
            },
            QueryMsg::GetStats {  } => match r {
                Ok(QueryResponse::Stats(stats)) => stats.total_deposits == gateway.total_deposits
                    && stats.total_withdrawals == gateway.total_withdrawals && stats.total_volume
                    == gateway.total_deposits + gateway.total_withdrawals,
                Ok(_) => false,
                Err(error) => error == ContractError::Overflow,
            },
            QueryMsg::GetConfig {  } => r matches Ok(QueryResponse::Config(config)) && config == gateway.config,
        },
{
    match msg {
        QueryMsg::GetLockedBalance { token } => Ok(
            QueryResponse::LockedBalance(query_locked_balance(gateway, token.as_str())),
        ),
        QueryMsg::GetAvailableLiquidity { token } => Ok(
            QueryResponse::AvailableLiquidity(query_available_liquidity(gateway, token.as_str())),
        ),
        QueryMsg::IsNullifierUsed { nullifier } => Ok(
            QueryResponse::NullifierUsed(query_is_nullifier_used(gateway, nullifier.as_str())),
        ),
        QueryMsg::GetDeposit { deposit_id } => match query_deposit(gateway, deposit_id.as_str()) {
            Ok(info) => Ok(QueryResponse::Deposit(info)),
            Err(error) => Err(error),
        },
        QueryMsg::GetWithdrawalRequest { withdrawal_id } => match query_withdrawal_request(
            gateway,
            withdrawal_id.as_str(),
        ) {
            Ok(request) => Ok(QueryResponse::WithdrawalRequest(request)),
            Err(error) => Err(error),
        },
        QueryMsg::GetStats {  } => match query_stats(gateway) {
            Ok(stats) => Ok(QueryResponse::Stats(stats)),
            Err(error) => Err(error),
        },
        QueryMsg::GetConfig {  } => Ok(
            QueryResponse::Config(
                Config {
                    owner: gateway.config.owner.clone(),
                    coordinator: gateway.config.coordinator.clone(),
                    paused: gateway.config.paused,
                    bridge_fee: gateway.config.bridge_fee,
                },
            ),
        ),
    }
}

// ============ Helper Functions ============
pub fn generate_deposit_id(
    sender: &str,
    token: &str,
    amount: u128,
    target_chain_id: u64,
    recipient: &str,
    nonce: u64,
    timestamp: u64,
) -> (id: String)
    ensures
        id@ == deposit_id_of(sender@, token@, amount, target_chain_id, recipient@, nonce, timestamp),
{
    let mut data: Vec<u8> = Vec::new();
    data.extend_from_slice(sender.as_bytes());
    data.extend_from_slice(token.as_bytes());
    let digits = decimal(amount);
    data.extend_from_slice(digits.as_slice());
    let chain_bytes = u64_to_le_bytes(target_chain_id);
    data.extend_from_slice(chain_bytes.as_slice());
    data.extend_from_slice(recipient.as_bytes());
    let nonce_bytes = u64_to_le_bytes(nonce);
    data.extend_from_slice(nonce_bytes.as_slice());
    let time_bytes = u64_to_le_bytes(timestamp);
    data.extend_from_slice(time_bytes.as_slice());
    assert(data@ =~= encode_utf8(sender@) + encode_utf8(token@) + spec_decimal(amount as nat) + spec_u64_to_le_bytes(
        target_chain_id,
    ) + encode_utf8(recipient@) + spec_u64_to_le_bytes(nonce) + spec_u64_to_le_bytes(timestamp));
    let hash = sha256(data.as_slice());
    hex_encode(hash.as_slice())
}

pub fn generate_withdrawal_id(recipient: &str, token: &str, amount: u128, nullifier: &str, nonce: u64, timestamp: u64) -> (id:
    String)
    ensures
        id@ == withdrawal_id_of(recipient@, token@, amount, nullifier@, nonce, timestamp),
{
    let mut data: Vec<u8> = Vec::new();
    data.extend_from_slice(recipient.as_bytes());
    data.extend_from_slice(token.as_bytes());
    let digits = decimal(amount);
    data.extend_from_slice(digits.as_slice());
    data.extend_from_slice(nullifier.as_bytes());
    let nonce_bytes = u64_to_le_bytes(nonce);
    data.extend_from_slice(nonce_bytes.as_slice());
    let time_bytes = u64_to_le_bytes(timestamp);
    data.extend_from_slice(time_bytes.as_slice());
    assert(data@ =~= encode_utf8(recipient@) + encode_utf8(token@) + spec_decimal(amount as nat) + encode_utf8(
        nullifier@,
    ) + spec_u64_to_le_bytes(nonce) + spec_u64_to_le_bytes(timestamp));
    let hash = sha256(data.as_slice());
    hex_encode(hash.as_slice())
}

/// The digest that the coordinator's signature on a withdrawal is over.
pub fn signed_hash(withdrawal_id: &str, recipient: &str, token: &str, amount: u128, nullifier: &str) -> (hash: Vec<u8>)
    ensures
        hash@ == signed_hash_of(withdrawal_id@, recipient@, token@, amount, nullifier@),
{
    let mut data: Vec<u8> = Vec::new();
    data.extend_from_slice(withdrawal_id.as_bytes());
    data.extend_from_slice(recipient.as_bytes());
    data.extend_from_slice(token.as_bytes());
    let digits = decimal(amount);
    data.extend_from_slice(digits.as_slice());
    data.extend_from_slice(nullifier.as_bytes());
    assert(data@ =~= encode_utf8(withdrawal_id@) + encode_utf8(recipient@) + encode_utf8(token@) + spec_decimal(
        amount as nat,
    ) + encode_utf8(nullifier@));
    sha256(data.as_slice())
}

/// Checks the form of the coordinator's signature on a withdrawal:
/// hexadecimal text for 65 bytes, of which the first 64 are a signature
/// over secp256k1. The key that signed is not recovered.
pub fn verify_coordinator_signature(
    _withdrawal_id: &str,
    _recipient: &str,
    _token: &str,
    _amount: u128,
    _nullifier: &str,
    signature: &str,
) -> (r: Result<(), ContractError>)
    ensures
        r is Ok <==> signature_in_order(signature@),
        r is Err ==> r->Err_0 == ContractError::InvalidSignature,
{
    let sig_bytes = match hex_decode(signature) {
        None => {
            return Err(ContractError::InvalidSignature);
        },
        Some(bytes) => bytes,
    };
    if sig_bytes.len() != 65 {
        return Err(ContractError::InvalidSignature);
    }
    if !parses_as_signature(slice_subrange(sig_bytes.as_slice(), 0, 64)) {
        return Err(ContractError::InvalidSignature);
    }
    Ok(())
}

} // verus!
