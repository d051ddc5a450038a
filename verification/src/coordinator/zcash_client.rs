//! What the coordinator decides about the settlement node's answers.
//!
//! Talking to the node is the caller's business. The decisions on what the
//! node said are made here, on plain values.

use vstd::prelude::*;
use crate::hexcode::{hex_decode, hex_encode, is_hex_text, spec_hex_decode, spec_hex_encode};
use crate::ratio::{lemma_product_fits, Ratio};
use crate::text::str_eq;

verus! {

/// Blockchain info response.
#[derive(Debug)]
pub struct BlockchainInfo {
    pub chain: String,
    pub blocks: u32,
    pub bestblockhash: String,
    /// The share of the chain that the node has verified.
    pub verificationprogress: Ratio,
    pub chainwork: String,
}

/// Transaction info.
#[derive(Debug)]
pub struct TransactionInfo {
    pub txid: String,
    pub confirmations: u32,
    pub blockhash: Option<String>,
    pub blockindex: Option<u32>,
}

/// What the node says of an operation: its status, the transaction id of
/// its result, and the message of its error, each where there is one.
#[derive(Debug)]
pub struct OperationStatus {
    pub status: Option<String>,
    pub txid: Option<String>,
    pub error_message: Option<String>,
}

#[derive(Debug)]
pub enum OperationError {
    /// The operation succeeded, but its result names no transaction.
    NoTxid,
    /// The operation failed, with this message.
    Failed(String),
    /// The node gave a status that is not known.
    UnknownStatus(String),
}

/// What to do about an operation after a look at its status.
#[derive(Debug)]
pub enum OperationStep {
    /// The operation is done: this is its transaction.
    Done(String),
    Fail(OperationError),
    /// The operation is still going: look again after a pause.
    Wait,
    /// The node gave no status: look again at once.
    Again,
}

/// How often the status of an operation is looked at before giving up.
pub const OPERATION_POLLS: u32 = 60;

/// How often a transaction is looked at before giving up on its confirmation.
pub const CONFIRMATION_POLLS: u32 = 120;

/// The number of zatoshi in one coin.
pub const ZATOSHI_PER_COIN: u64 = 100_000_000;

/// The node counts as synced from this share of verified chain on: 0.9999.
pub open spec fn synced(progress: Ratio) -> bool {
    progress.denominator > 0 && progress.numerator * 10000 >= 9999 * progress.denominator
}

/// Whether the node has verified enough of the chain to count as synced.
pub fn is_synced(info: &BlockchainInfo) -> (b: bool)
    ensures
        b == synced(info.verificationprogress),
{
    let progress = info.verificationprogress;
    proof {
        lemma_product_fits(progress.numerator as int, 10000);
        lemma_product_fits(9999, progress.denominator as int);
    }
    progress.denominator > 0 && (progress.numerator as u128) * 10000 >= 9999 * (progress.denominator as u128)
}

/// Whether another look at an operation's status is due after `attempt` looks.
pub fn operation_poll_allowed(attempt: u32) -> (b: bool)
    ensures
        b == (attempt < OPERATION_POLLS),
{
    attempt < OPERATION_POLLS
}

/// Whether another look at a transaction is due after `attempt` looks.
pub fn confirmation_poll_allowed(attempt: u32) -> (b: bool)
    ensures
        b == (attempt < CONFIRMATION_POLLS),
{
    attempt < CONFIRMATION_POLLS
}

/// What to do about an operation whose status the node gave as `report`.
pub fn operation_step(report: &OperationStatus) -> (step: OperationStep)
    ensures
        match step {
            OperationStep::Done(txid) => {
                &&& report.status matches Some(status)
                &&& status@ == "success"@
                &&& report.txid matches Some(found)
                &&& txid@ == found@
            },
            OperationStep::Fail(OperationError::NoTxid) => {
                &&& report.status matches Some(status)
                &&& status@ == "success"@
                &&& report.txid is None
            },
            OperationStep::Fail(OperationError::Failed(message)) => {
                &&& report.status matches Some(status)
                &&& status@ == "failed"@
                &&& message@ == match report.error_message {
                    Some(given) => given@,
                    None => "Unknown error"@,
                }
            },
            OperationStep::Fail(OperationError::UnknownStatus(given)) => {
                &&& report.status matches Some(status)
                &&& status@ != "success"@
                &&& status@ != "failed"@
                &&& status@ != "executing"@
                &&& status@ != "queued"@
                &&& given@ == status@
            },
            OperationStep::Wait => {
                &&& report.status matches Some(status)
                &&& (status@ == "executing"@ || status@ == "queued"@)
            },
            OperationStep::Again => report.status is None,
        },
{
    proof {
        reveal_strlit("success");
        reveal_strlit("failed");
        reveal_strlit("executing");
        reveal_strlit("queued");
    }
    match &report.status {
        None => OperationStep::Again,
        Some(status) => {
            if str_eq(status.as_str(), "success") {
                match &report.txid {
                    Some(txid) => OperationStep::Done(txid.clone()),
                    None => OperationStep::Fail(OperationError::NoTxid),
                }
            } else if str_eq(status.as_str(), "failed") {
                let message = match &report.error_message {
                    Some(given) => given.clone(),
                    None => "Unknown error".to_owned(),
                };
                OperationStep::Fail(OperationError::Failed(message))
            } else if str_eq(status.as_str(), "executing") || str_eq(status.as_str(), "queued") {
                OperationStep::Wait
            } else {
                OperationStep::Fail(OperationError::UnknownStatus(status.clone()))
            }
        },
    }
}

/// Whether a transaction has the confirmations asked for.
pub fn is_confirmed(info: &TransactionInfo, confirmations: u32) -> (b: bool)
    ensures
        b == (info.confirmations >= confirmations),
{
    info.confirmations >= confirmations
}

/// An amount in zatoshi as whole coins and the zatoshi beyond them.
pub fn split_zatoshi(amount: u64) -> (parts: (u64, u64))
    ensures
        parts.0 == amount / ZATOSHI_PER_COIN,
        parts.1 == amount % ZATOSHI_PER_COIN,
        parts.0 * ZATOSHI_PER_COIN + parts.1 == amount,
        parts.1 < ZATOSHI_PER_COIN,
{
    (amount / ZATOSHI_PER_COIN, amount % ZATOSHI_PER_COIN)
}

/// The memo of a shielded transaction as the node takes it: in hexadecimal.
pub fn memo_hex(memo: &[u8]) -> (text: String)
    ensures
        text@ == spec_hex_encode(memo@),
{
    hex_encode(memo)
}

/// A merkle root is acceptable if it is 32 bytes long and not all zero.
pub open spec fn acceptable_root(root: Seq<u8>) -> bool {
    root.len() == 32 && exists|i: int| 0 <= i < root.len() && #[trigger] root[i] != 0
}

/// Verify merkle root exists in blockchain.
pub fn verify_merkle_root(root: &[u8]) -> (b: bool)
    ensures
        b == acceptable_root(root@),
{
    if root.len() != 32 {
        return false;
    }
    let mut i: usize = 0;
    while i < root.len()
        invariant
            i <= root.len(),
            root@.len() == 32,
            forall|j: int| 0 <= j < i ==> #[trigger] root@[j] == 0,
        decreases root.len() - i,
    {
        if root[i] != 0 {
            return true;
        }
        i += 1;
    }
    false
}

/// Get current merkle root: the best block hash of the node, read as
/// hexadecimal. Nothing, if the hash is no hexadecimal text.
pub fn get_merkle_root(info: &BlockchainInfo) -> (root: Option<Vec<u8>>)
    ensures
        root is Some <==> is_hex_text(info.bestblockhash@),
        root is Some ==> root->0@ == spec_hex_decode(info.bestblockhash@),
{
    hex_decode(info.bestblockhash.as_str())
}

/// The merkle path that stands in for the node's: three nodes of 32 bytes,
/// filled with 0, 1 and 2.
pub open spec fn stand_in_path() -> Seq<Seq<u8>> {
    seq![Seq::new(32, |i: int| 0u8), Seq::new(32, |i: int| 1u8), Seq::new(32, |i: int| 2u8)]
}

fn filled(byte: u8) -> (node: Vec<u8>)
    ensures
        node@ == Seq::new(32, |i: int| byte),
{
    let mut node: Vec<u8> = Vec::new();
    let mut i: usize = 0;
    while i < 32
        invariant
            i <= 32,
            node@ == Seq::new(i as nat, |k: int| byte),
        decreases 32 - i,
    {
        node.push(byte);
        assert(node@ =~= Seq::new((i + 1) as nat, |k: int| byte));
        i += 1;
    }
    node
}

/// Get merkle path for commitment.
pub fn get_merkle_path(_commitment: &[u8]) -> (path: Vec<Vec<u8>>)
    ensures
        path@.map_values(|node: Vec<u8>| node@) == stand_in_path(),
{
    let mut path: Vec<Vec<u8>> = Vec::new();
    path.push(filled(0));
    path.push(filled(1));
    path.push(filled(2));
    assert(path@.map_values(|node: Vec<u8>| node@) =~= stand_in_path());
    path
}

} // verus!
