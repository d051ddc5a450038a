//! Transaction execution on destination chains.
//!
//! The executor prepares what is to be submitted for an authorized
//! withdrawal: it finds the chain, reads the addresses and lays out the
//! bytes. Signing and sending the transaction is the caller's business.

use vstd::prelude::*;
use vstd::bytes::{spec_u64_to_le_bytes, u64_to_le_bytes};
use vstd::slice::slice_subrange;
use vstd::string::{StrSliceExecFns, StringExecFns};
use crate::endian::{spec_u64_to_be_bytes, u64_to_be_bytes};
use crate::hexcode::{hex_decode, hex_encode, is_hex_text, spec_hex_decode, spec_hex_encode};
use crate::relayer::config::{is_first_with_id, ChainConfig, ChainType, RelayerConfig};

verus! {

/// The gas limit of a withdrawal on an EVM chain.
pub const EVM_GAS_LIMIT: u64 = 300_000;

/// The instruction number of a withdrawal on Solana.
pub const SOLANA_WITHDRAWAL_INSTRUCTION: u8 = 2;

#[derive(Debug, Clone, Copy, PartialEq, Eq, Structural)]
pub enum ExecutionError {
    /// No chain with this id is configured.
    ChainNotConfigured,
    /// The gateway address is no EVM address.
    InvalidGatewayAddress,
    /// The recipient is no EVM address.
    InvalidRecipient,
    /// The token is no EVM address.
    InvalidToken,
    /// The nullifier has fewer than eight bytes.
    NullifierTooShort,
}

/// What is to be submitted for a withdrawal, by kind of chain.
#[derive(Debug)]
pub enum Submission {
    /// A call of the gateway contract. The gas price is the current price
    /// times `gas_price_factor`.
    Evm { rpc_url: String, gateway: Vec<u8>, call_data: Vec<u8>, gas_limit: u64, gas_price_factor: u64 },
    /// An instruction to the gateway program, with the recipient's and the
    /// token's accounts.
    Solana { rpc_url: String, program_id: String, recipient: String, token: String, instruction_data: Vec<u8> },
    /// A withdrawal on NEAR, under this reference.
    Near { tx_hash: String },
    /// A withdrawal on Mina, under this reference.
    Mina { tx_hash: String },
}

/// The text without a leading `0x`.
pub open spec fn without_0x(text: Seq<char>) -> Seq<char> {
    if text.len() >= 2 && text[0] == '0' && text[1] == 'x' {
        text.skip(2)
    } else {
        text
    }
}

/// The text is an EVM address: forty hexadecimal digits, with or without a
/// leading `0x`.
pub open spec fn is_evm_address(text: Seq<char>) -> bool {
    without_0x(text).len() == 40 && is_hex_text(without_0x(text))
}

/// The twenty bytes of an EVM address.
pub open spec fn evm_address_bytes(text: Seq<char>) -> Seq<u8> {
    spec_hex_decode(without_0x(text))
}

/// The call data of a withdrawal on an EVM chain: the selector, the
/// recipient, the token, the amount as eight bytes with the most
/// significant first, the nullifier and the signature.
pub open spec fn evm_call_data(
    recipient: Seq<u8>,
    token: Seq<u8>,
    amount: u64,
    nullifier: Seq<u8>,
    auth_signature: Seq<u8>,
) -> Seq<u8> {
    seq![0x12u8, 0x34u8, 0x56u8, 0x78u8] + recipient + token + spec_u64_to_be_bytes(amount) + nullifier
        + auth_signature
}

/// The instruction data of a withdrawal on Solana: the instruction number,
/// the amount as eight bytes with the least significant first, the
/// nullifier and the signature.
pub open spec fn solana_instruction_data(amount: u64, nullifier: Seq<u8>, auth_signature: Seq<u8>) -> Seq<u8> {
    seq![SOLANA_WITHDRAWAL_INSTRUCTION] + spec_u64_to_le_bytes(amount) + nullifier + auth_signature
}

/// The reference of a withdrawal on a chain without a transaction of its
/// own: the prefix and the first eight bytes of the nullifier in hexadecimal.
pub open spec fn reference(prefix: Seq<char>, nullifier: Seq<u8>) -> Seq<char> {
    prefix + spec_hex_encode(nullifier.subrange(0, 8))
}

/// What multiplies the gas price: the whole part of the multiplier, and
/// nothing for a multiplier without a denominator.
pub open spec fn gas_price_factor(chain: ChainConfig) -> u64 {
    if chain.gas_strategy.multiplier.denominator == 0 {
        0
    } else {
        chain.gas_strategy.multiplier.numerator / chain.gas_strategy.multiplier.denominator
    }
}

/// Reads an EVM address.
pub fn parse_evm_address(text: &str) -> (address: Option<Vec<u8>>)
    ensures
        address is Some <==> is_evm_address(text@),
        address is Some ==> address->0@ == evm_address_bytes(text@) && address->0@.len() == 20,
{
    let length = text.unicode_len();
    let body = if length >= 2 && text.get_char(0) == '0' && text.get_char(1) == 'x' {
        let body = text.substring_char(2, length);
        assert(body@ =~= text@.skip(2));
        body
    } else {
        text
    };
    if body.unicode_len() != 40 {
        return None;
    }
    hex_decode(body)
}

pub struct TransactionExecutor {
    config: RelayerConfig,
}

impl TransactionExecutor {
    pub closed spec fn chains(&self) -> Seq<ChainConfig> {
        self.config.chains@
    }

    pub fn new(config: RelayerConfig) -> (executor: TransactionExecutor)
        ensures
            executor.chains() == config.chains@,
    {
        TransactionExecutor { config }
    }

    /// Execute withdrawal transaction on destination chain: finds the first
    /// configured chain with the id and prepares the submission for its
    /// kind of chain.
    pub fn execute_withdrawal(
        &self,
        chain_id: u64,
        recipient: &str,
        token: &str,
        amount: u64,
        nullifier: &[u8],
        auth_signature: &[u8],
    ) -> (r: Result<Submission, ExecutionError>)
        ensures
            (forall|i: int| 0 <= i < self.chains().len() ==> (#[trigger] self.chains()[i]).chain_id != chain_id) ==> r
                == Err::<Submission, ExecutionError>(ExecutionError::ChainNotConfigured),
            forall|i: int| #[trigger]
                is_first_with_id(self.chains(), chain_id, i) ==> prepared(
                    self.chains()[i],
                    recipient@,
                    token@,
                    amount,
                    nullifier@,
                    auth_signature@,
                    r,
                ),
    {
        let chain_config = match self.config.get_chain(chain_id) {
            None => {
                return Err(ExecutionError::ChainNotConfigured);
            },
            Some(chain_config) => chain_config,
        };
        proof {
            let first = choose|i: int| #[trigger]
                is_first_with_id(self.chains(), chain_id, i) && *chain_config == self.chains()[i];
            assert forall|i: int| #[trigger] is_first_with_id(self.chains(), chain_id, i) implies i == first by {
                if i < first {
                    assert(self.chains()[i].chain_id != chain_id);
                }
                if first < i {
                    assert(self.chains()[first].chain_id != chain_id);
                }
            }
        }
        match chain_config.chain_type {
            ChainType::Ethereum | ChainType::Base | ChainType::Polygon => execute_evm_withdrawal(
                chain_config,
                recipient,
                token,
                amount,
                nullifier,
                auth_signature,
            ),
            ChainType::Solana => Ok(
                execute_solana_withdrawal(chain_config, recipient, token, amount, nullifier, auth_signature),
            ),
            ChainType::Near => execute_near_withdrawal(nullifier),
            ChainType::Mina => execute_mina_withdrawal(nullifier),
        }
    }
}

/// `r` is what the executor prepares for a withdrawal on `chain`.
pub open spec fn prepared(
    chain: ChainConfig,
    recipient: Seq<char>,
    token: Seq<char>,
    amount: u64,
    nullifier: Seq<u8>,
    auth_signature: Seq<u8>,
    r: Result<Submission, ExecutionError>,
) -> bool {
    match chain.chain_type {
        ChainType::Solana => prepared_solana(chain, recipient, token, amount, nullifier, auth_signature, r),
        ChainType::Near => prepared_reference("near_tx_"@, nullifier, r) && (r is Ok ==> r->Ok_0 is Near),
        ChainType::Mina => prepared_reference("mina_tx_"@, nullifier, r) && (r is Ok ==> r->Ok_0 is Mina),
        _ => prepared_evm(chain, recipient, token, amount, nullifier, auth_signature, r),
    }
}

/// `r` is what the executor prepares for a withdrawal on the EVM chain
/// `chain`: the first of the gateway, the recipient and the token that is
/// no address is the error; otherwise the call is laid out.
pub open spec fn prepared_evm(
    chain: ChainConfig,
    recipient: Seq<char>,
    token: Seq<char>,
    amount: u64,
    nullifier: Seq<u8>,
    auth_signature: Seq<u8>,
    r: Result<Submission, ExecutionError>,
) -> bool {
    match r {
        Ok(Submission::Evm { rpc_url, gateway, call_data, gas_limit, gas_price_factor: factor }) => {
            &&& is_evm_address(chain.gateway_address@)
            &&& is_evm_address(recipient)
            &&& is_evm_address(token)
            &&& rpc_url@ == chain.rpc_url@
            &&& gateway@ == evm_address_bytes(chain.gateway_address@)
            &&& call_data@ == evm_call_data(
                evm_address_bytes(recipient),
                evm_address_bytes(token),
                amount,
                nullifier,
                auth_signature,
            )
            &&& gas_limit == EVM_GAS_LIMIT
            &&& factor == gas_price_factor(chain)
        },
        Ok(_) => false,
        Err(ExecutionError::InvalidGatewayAddress) => !is_evm_address(chain.gateway_address@),
        Err(ExecutionError::InvalidRecipient) => is_evm_address(chain.gateway_address@) && !is_evm_address(recipient),
        Err(ExecutionError::InvalidToken) => is_evm_address(chain.gateway_address@) && is_evm_address(recipient)
            && !is_evm_address(token),
        Err(_) => false,
    }
}

/// `r` is what the executor prepares for a withdrawal on the Solana chain
/// `chain`.
pub open spec fn prepared_solana(
    chain: ChainConfig,
    recipient: Seq<char>,
    token: Seq<char>,
    amount: u64,
    nullifier: Seq<u8>,
    auth_signature: Seq<u8>,
    r: Result<Submission, ExecutionError>,
) -> bool {
    match r {
        Ok(Submission::Solana { rpc_url, program_id, recipient: to, token: mint, instruction_data }) => {
            &&& rpc_url@ == chain.rpc_url@
            &&& program_id@ == chain.gateway_address@
            &&& to@ == recipient
            &&& mint@ == token
            &&& instruction_data@ == solana_instruction_data(amount, nullifier, auth_signature)
        },
        _ => false,
    }
}

/// `r` is the reference of a withdrawal under `prefix`, or the error that
/// the nullifier is too short for one.
pub open spec fn prepared_reference(prefix: Seq<char>, nullifier: Seq<u8>, r: Result<Submission, ExecutionError>) -> bool {
    match r {
        Ok(Submission::Near { tx_hash }) => nullifier.len() >= 8 && tx_hash@ == reference(prefix, nullifier),
        Ok(Submission::Mina { tx_hash }) => nullifier.len() >= 8 && tx_hash@ == reference(prefix, nullifier),
        Ok(_) => false,
        Err(ExecutionError::NullifierTooShort) => nullifier.len() < 8,
        Err(_) => false,
    }
}

/// Execute withdrawal on EVM chain (Ethereum, Base, Polygon).
pub fn execute_evm_withdrawal(
    chain_config: &ChainConfig,
    recipient: &str,
    token: &str,
    amount: u64,
    nullifier: &[u8],
    auth_signature: &[u8],
) -> (r: Result<Submission, ExecutionError>)
    ensures
        prepared_evm(*chain_config, recipient@, token@, amount, nullifier@, auth_signature@, r),
{
    let gateway = match parse_evm_address(chain_config.gateway_address.as_str()) {
        None => {
            return Err(ExecutionError::InvalidGatewayAddress);
        },
        Some(gateway) => gateway,
    };
    let recipient_addr = match parse_evm_address(recipient) {
        None => {
            return Err(ExecutionError::InvalidRecipient);
        },
        Some(address) => address,
    };
    let token_addr = match parse_evm_address(token) {
        None => {
            return Err(ExecutionError::InvalidToken);
        },
        Some(address) => address,
    };
    let mut call_data: Vec<u8> = Vec::new();
    call_data.push(0x12);
    call_data.push(0x34);
    call_data.push(0x56);
    call_data.push(0x78);
    call_data.extend_from_slice(recipient_addr.as_slice());
    call_data.extend_from_slice(token_addr.as_slice());
    let amount_bytes = u64_to_be_bytes(amount);
    call_data.extend_from_slice(amount_bytes.as_slice());
    call_data.extend_from_slice(nullifier);
    call_data.extend_from_slice(auth_signature);
    assert(call_data@ =~= evm_call_data(recipient_addr@, token_addr@, amount, nullifier@, auth_signature@));
    let multiplier = chain_config.gas_strategy.multiplier;
    let factor = if multiplier.denominator == 0 {
        0
    } else {
        multiplier.numerator / multiplier.denominator
    };
    Ok(
        Submission::Evm {
            rpc_url: chain_config.rpc_url.clone(),
            gateway,
            call_data,
            gas_limit: EVM_GAS_LIMIT,
            gas_price_factor: factor,
        },
    )
}

/// Execute withdrawal on Solana.
pub fn execute_solana_withdrawal(
    chain_config: &ChainConfig,
    recipient: &str,
    token: &str,
    amount: u64,
    nullifier: &[u8],
    auth_signature: &[u8],
) -> (submission: Submission)
    ensures
        prepared_solana(
            *chain_config,
            recipient@,
            token@,
            amount,
            nullifier@,
            auth_signature@,
            Ok::<Submission, ExecutionError>(submission),
        ),
{
    let mut instruction_data: Vec<u8> = Vec::new();
    instruction_data.push(SOLANA_WITHDRAWAL_INSTRUCTION);
    let amount_bytes = u64_to_le_bytes(amount);
    instruction_data.extend_from_slice(amount_bytes.as_slice());
    instruction_data.extend_from_slice(nullifier);
    instruction_data.extend_from_slice(auth_signature);
    assert(instruction_data@ =~= solana_instruction_data(amount, nullifier@, auth_signature@));
    Submission::Solana {
        rpc_url: chain_config.rpc_url.clone(),
        program_id: chain_config.gateway_address.clone(),
        recipient: recipient.to_owned(),
        token: token.to_owned(),
        instruction_data,
    }
}

fn reference_of(prefix: &str, nullifier: &[u8]) -> (r: Option<String>)
    ensures
        r is Some <==> nullifier@.len() >= 8,
        r is Some ==> r->0@ == reference(prefix@, nullifier@),
{
    if nullifier.len() < 8 {
        return None;
    }
    let head = slice_subrange(nullifier, 0, 8);
    let digits = hex_encode(head);
    Some(prefix.to_owned().concat(digits.as_str()))
}

/// Execute withdrawal on NEAR.
pub fn execute_near_withdrawal(nullifier: &[u8]) -> (r: Result<Submission, ExecutionError>)
    ensures
        prepared_reference("near_tx_"@, nullifier@, r),
        r is Ok ==> r->Ok_0 is Near,
{
    match reference_of("near_tx_", nullifier) {
        Some(tx_hash) => Ok(Submission::Near { tx_hash }),
        None => Err(ExecutionError::NullifierTooShort),
    }
}

/// Execute withdrawal on Mina.
pub fn execute_mina_withdrawal(nullifier: &[u8]) -> (r: Result<Submission, ExecutionError>)
    ensures
        prepared_reference("mina_tx_"@, nullifier@, r),
        r is Ok ==> r->Ok_0 is Mina,
{
    match reference_of("mina_tx_", nullifier) {
        Some(tx_hash) => Ok(Submission::Mina { tx_hash }),
        None => Err(ExecutionError::NullifierTooShort),
    }
}

} // verus!
