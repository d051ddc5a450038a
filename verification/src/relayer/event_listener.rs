//! Event listener for gateway contracts.
//!
//! A gateway event arrives as a log of topics and data. This module reads a
//! deposit out of such a log and says which kind of listener each
//! configured chain gets. Subscribing and polling is the caller's business.

use vstd::prelude::*;
use vstd::slice::slice_subrange;
use vstd::string::StringExecFns;
use crate::endian::{spec_u64_from_be_bytes, u64_from_be_bytes};
use crate::hexcode::{hex_encode, spec_hex_encode};
use crate::relayer::config::{ChainConfig, ChainType, RelayerConfig};
use crate::relayer::coordinator_client::DepositNotification;

verus! {

/// A log of a gateway contract: its topics, of 32 bytes each, and its data.
#[derive(Debug)]
pub struct GatewayLog {
    pub topics: Vec<Vec<u8>>,
    pub data: Vec<u8>,
}

#[derive(Debug, Clone, Copy, PartialEq, Eq, Structural)]
pub enum EventError {
    /// The log has too few topics, a topic that is not 32 bytes long, or
    /// too little data for a deposit.
    MalformedEvent,
}

#[derive(Debug, Clone, Copy, PartialEq, Eq, Structural)]
pub enum ListenerError {
    /// The listener could not be started.
    StartFailed,
}

/// How a chain is listened to.
#[derive(Debug, Clone, Copy, PartialEq, Eq, Structural)]
pub enum ListenerKind {
    /// A subscription to the gateway's logs.
    Evm,
    Solana,
    Near,
    Mina,
}

/// The listener of one chain.
#[derive(Debug)]
pub struct ListenerPlan {
    pub chain_id: u64,
    pub name: String,
    pub kind: ListenerKind,
    /// Where the listener connects.
    pub endpoint: String,
    pub gateway_address: String,
    /// The pause between two polls in seconds, for a listener that polls.
    pub poll_interval: Option<u64>,
}

/// Something that listens to the events of a chain once it is started.
pub trait EventListener {
    fn start(&mut self) -> Result<(), ListenerError>;
}

pub struct EventListenerManager {
    listeners: Vec<ListenerPlan>,
}

/// The kind of listener of a kind of chain.
pub open spec fn listener_kind(chain_type: ChainType) -> ListenerKind {
    match chain_type {
        ChainType::Solana => ListenerKind::Solana,
        ChainType::Near => ListenerKind::Near,
        ChainType::Mina => ListenerKind::Mina,
        _ => ListenerKind::Evm,
    }
}

/// The pause between two polls of a kind of listener: none for a
/// subscription, two seconds on Solana and NEAR, five on Mina.
pub open spec fn poll_interval(kind: ListenerKind) -> Option<u64> {
    match kind {
        ListenerKind::Evm => None,
        ListenerKind::Solana => Some(2),
        ListenerKind::Near => Some(2),
        ListenerKind::Mina => Some(5),
    }
}

/// `plan` is the listener of `chain`. An EVM listener connects to the
/// chain's WebSocket URL where it has one; every other to the RPC URL.
pub open spec fn plan_of(chain: ChainConfig, plan: ListenerPlan) -> bool {
    &&& plan.chain_id == chain.chain_id
    &&& plan.name@ == chain.name@
    &&& plan.kind == listener_kind(chain.chain_type)
    &&& plan.endpoint@ == match (plan.kind, chain.ws_url) {
        (ListenerKind::Evm, Some(ws_url)) => ws_url@,
        _ => chain.rpc_url@,
    }
    &&& plan.gateway_address@ == chain.gateway_address@
    &&& plan.poll_interval == poll_interval(plan.kind)
}

impl EventListenerManager {
    pub closed spec fn listeners(&self) -> Seq<ListenerPlan> {
        self.listeners@
    }

    /// One listener per configured chain, in the order of the chains.
    pub fn new(config: &RelayerConfig) -> (manager: EventListenerManager)
        ensures
            manager.listeners().len() == config.chains@.len(),
            forall|i: int|
                0 <= i < config.chains@.len() ==> plan_of(config.chains@[i], #[trigger] manager.listeners()[i]),
    {
        let mut listeners: Vec<ListenerPlan> = Vec::new();
        let mut i: usize = 0;
        while i < config.chains.len()
            invariant
                i <= config.chains@.len(),
                listeners@.len() == i,
                forall|j: int| 0 <= j < i ==> plan_of(config.chains@[j], #[trigger] listeners@[j]),
            decreases config.chains@.len() - i,
        {
            let chain = &config.chains[i];
            let kind = match chain.chain_type {
                ChainType::Ethereum | ChainType::Base | ChainType::Polygon => ListenerKind::Evm,
                ChainType::Solana => ListenerKind::Solana,
                ChainType::Near => ListenerKind::Near,
                ChainType::Mina => ListenerKind::Mina,
            };
            let endpoint = match (kind, &chain.ws_url) {
                (ListenerKind::Evm, Some(ws_url)) => ws_url.clone(),
                _ => chain.rpc_url.clone(),
            };
            let pause = match kind {
                ListenerKind::Evm => None,
                ListenerKind::Solana => Some(2),
                ListenerKind::Near => Some(2),
                ListenerKind::Mina => Some(5),
            };
            listeners.push(
                ListenerPlan {
                    chain_id: chain.chain_id,
                    name: chain.name.clone(),
                    kind,
                    endpoint,
                    gateway_address: chain.gateway_address.clone(),
                    poll_interval: pause,
                },
            );
            i += 1;
        }
        EventListenerManager { listeners }
    }

    /// How many listeners there are.
    pub fn len(&self) -> (n: usize)
        ensures
            n == self.listeners().len(),
    {
        self.listeners.len()
    }

    /// The listener at a place.
    pub fn listener(&self, i: usize) -> (plan: &ListenerPlan)
        requires
            i < self.listeners().len(),
        ensures
            *plan == self.listeners()[i as int],
    {
        &self.listeners[i]
    }
}

/// The log can be read as a deposit: it has four topics at least, the
/// second to the fourth of 32 bytes each, and 80 bytes of data at least.
pub open spec fn well_formed_log(log: GatewayLog) -> bool {
    &&& log.topics@.len() >= 4
    &&& log.topics@[1]@.len() == 32
    &&& log.topics@[2]@.len() == 32
    &&& log.topics@[3]@.len() == 32
    &&& log.data@.len() >= 80
}

/// An address as text: `0x` and the last twenty bytes of a topic in hexadecimal.
pub open spec fn topic_address(topic: Seq<u8>) -> Seq<char> {
    "0x"@ + spec_hex_encode(topic.subrange(12, 32))
}

fn address_of(topic: &Vec<u8>) -> (text: String)
    requires
        topic@.len() == 32,
    ensures
        text@ == topic_address(topic@),
{
    let tail = slice_subrange(topic.as_slice(), 12, 32);
    let digits = hex_encode(tail);
    "0x".to_owned().concat(digits.as_str())
}

/// Reads the deposit out of a `TokensLocked` log that was seen on the chain
/// `source_chain_id` at the time `timestamp`. The second topic is the
/// deposit id, the third and fourth hold the sender and the token. The data
/// hold the amount and the target chain as eight bytes each with the most
/// significant first, then the recipient and the shielded address of 32
/// bytes each.
pub fn handle_tokens_locked(source_chain_id: u64, log: &GatewayLog, timestamp: u64) -> (r: Result<
    DepositNotification,
    EventError,
>)
    ensures
        r is Ok <==> well_formed_log(*log),
        r matches Ok(notification) ==> {
            &&& notification.deposit_id@ == spec_hex_encode(log.topics@[1]@)
            &&& notification.source_chain_id == source_chain_id
            &&& notification.target_chain_id == spec_u64_from_be_bytes(log.data@.subrange(8, 16))
            &&& notification.sender@ == topic_address(log.topics@[2]@)
            &&& notification.token@ == topic_address(log.topics@[3]@)
            &&& notification.amount == spec_u64_from_be_bytes(log.data@.subrange(0, 8))
            &&& notification.recipient@ == log.data@.subrange(16, 48)
            &&& notification.zcash_address@ == log.data@.subrange(48, 80)
            &&& notification.timestamp == timestamp
        },
{
    if log.topics.len() < 4 || log.topics[1].len() != 32 || log.topics[2].len() != 32 || log.topics[3].len() != 32
        || log.data.len() < 80 {
        return Err(EventError::MalformedEvent);
    }
    let data = log.data.as_slice();
    let deposit_id = hex_encode(log.topics[1].as_slice());
    let sender = address_of(&log.topics[2]);
    let token = address_of(&log.topics[3]);
    let amount = u64_from_be_bytes(slice_subrange(data, 0, 8));
    let target_chain_id = u64_from_be_bytes(slice_subrange(data, 8, 16));
    let recipient = vstd::slice::slice_to_vec(slice_subrange(data, 16, 48));
    let zcash_address = vstd::slice::slice_to_vec(slice_subrange(data, 48, 80));
    Ok(
        DepositNotification {
            deposit_id,
            source_chain_id,
            target_chain_id,
            sender,
            token,
            amount,
            recipient,
            zcash_address,
            timestamp,
        },
    )
}

} // verus!
