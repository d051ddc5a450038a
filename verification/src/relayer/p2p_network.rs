//! Task claims among relayers.
//!
//! A claim is a lease on a task: it says that some relayer is at work on the
//! task until the lease ends. Claims are advisory. They travel between
//! relayers as short text messages; this module keeps the table of claims,
//! writes the messages that go out and reads the messages that come in.
//! Sending and receiving them is the caller's business.

use vstd::prelude::*;
use vstd::string::{StrSliceExecFns, StringExecFns};
use crate::clock::{clock_reading, unix_now};
use crate::relayer::config::RelayerConfig;
use crate::table::{Table, TextKey};
use crate::text::str_eq;

verus! {

/// How long a claim lasts, in seconds.
pub const CLAIM_TTL_SECS: i64 = 300;

#[derive(Debug)]
pub struct TaskClaim {
    pub task_id: String,
    pub claimed_by: String,
    pub claimed_at: i64,
    pub expires_at: i64,
}

#[derive(Debug, Clone, Copy, PartialEq, Eq, Structural)]
pub struct NetworkStats {
    pub connected_peers: usize,
    pub active_claims: usize,
    pub bootstrap_peers: usize,
}

/// A message from a peer, read.
#[derive(Debug)]
pub enum PeerMessage {
    /// A peer claimed the task.
    Claim(String),
    /// A peer executed the withdrawal, in the transaction.
    Executed(String, String),
    /// A peer notified the coordinator of the deposit.
    DepositNotified(String),
    /// Anything else.
    Ignored,
}

/// When a lease taken at `now` ends: `CLAIM_TTL_SECS` later, and at the end
/// of time at the latest.
pub open spec fn lease_end(now: i64) -> i64 {
    if now + CLAIM_TTL_SECS > i64::MAX {
        i64::MAX
    } else {
        (now + CLAIM_TTL_SECS) as i64
    }
}

/// At the time `now` the table holds a claim on the task that has not ended.
pub open spec fn claimed(claims: Map<Seq<char>, TaskClaim>, task_id: Seq<char>, now: i64) -> bool {
    claims.dom().contains(task_id) && claims[task_id].expires_at > now
}

/// The table `after` is the table `before` once a message that was read as
/// `read` has been taken in at the time `now`. A claim is on record in the
/// peer's name, with a lease from `now`; an execution has taken the claim
/// on its withdrawal off the record; anything else has changed nothing.
pub open spec fn took_in(
    before: Map<Seq<char>, TaskClaim>,
    after: Map<Seq<char>, TaskClaim>,
    read: PeerMessage,
    now: i64,
) -> bool {
    match read {
        PeerMessage::Claim(task_id) => {
            &&& after.dom() == before.dom().insert(task_id@)
            &&& forall|other: Seq<char>|
                other != task_id@ && before.dom().contains(other) ==> #[trigger] after[other] == before[other]
            &&& after[task_id@].task_id@ == task_id@
            &&& after[task_id@].claimed_by@ == "peer"@
            &&& after[task_id@].claimed_at == now
            &&& after[task_id@].expires_at == lease_end(now)
        },
        PeerMessage::Executed(withdrawal_id, _) => after == before.remove(withdrawal_id@),
        _ => after == before,
    }
}

/// The text begins with the prefix.
pub open spec fn has_prefix(text: Seq<char>, prefix: Seq<char>) -> bool {
    text.len() >= prefix.len() && text.subrange(0, prefix.len() as int) == prefix
}

/// The text has a colon at `pos` and nowhere else.
pub open spec fn is_only_colon(text: Seq<char>, pos: int) -> bool {
    &&& 0 <= pos < text.len()
    &&& text[pos] == ':'
    &&& forall|j: int| 0 <= j < text.len() && j != pos ==> #[trigger] text[j] != ':'
}

/// What a message says. A claim names its task behind `CLAIM:`. An
/// execution names the withdrawal and the transaction behind `EXECUTED:`,
/// with one colon between them and no other. A deposit notification names
/// its deposit behind `DEPOSIT_NOTIFIED:`. Nothing else says anything.
pub open spec fn message_says(message: Seq<char>, read: PeerMessage) -> bool {
    if has_prefix(message, "CLAIM:"@) {
        read matches PeerMessage::Claim(task_id) && task_id@ == message.skip(6)
    } else if has_prefix(message, "EXECUTED:"@) {
        let rest = message.skip(9);
        match read {
            PeerMessage::Executed(withdrawal_id, tx_hash) => exists|pos: int|
                {
                    &&& #[trigger] is_only_colon(rest, pos)
                    &&& withdrawal_id@ == rest.subrange(0, pos)
                    &&& tx_hash@ == rest.subrange(pos + 1, rest.len() as int)
                },
            PeerMessage::Ignored => forall|pos: int| !#[trigger] is_only_colon(rest, pos),
            _ => false,
        }
    } else if has_prefix(message, "DEPOSIT_NOTIFIED:"@) {
        read matches PeerMessage::DepositNotified(deposit_id) && deposit_id@ == message.skip(17)
    } else {
        read is Ignored
    }
}

fn starts_with(text: &str, length: usize, prefix: &str, prefix_length: usize) -> (b: bool)
    requires
        length == text@.len(),
        prefix_length == prefix@.len(),
    ensures
        b == has_prefix(text@, prefix@),
{
    if length < prefix_length {
        return false;
    }
    str_eq(text.substring_char(0, prefix_length), prefix)
}

/// Reads a message from a peer.
pub fn parse_peer_message(message: &str) -> (read: PeerMessage)
    ensures
        message_says(message@, read),
{
    proof {
        reveal_strlit("CLAIM:");
        reveal_strlit("EXECUTED:");
        reveal_strlit("DEPOSIT_NOTIFIED:");
    }
    let length = message.unicode_len();
    if starts_with(message, length, "CLAIM:", 6) {
        let task_id = message.substring_char(6, length);
        assert(task_id@ =~= message@.skip(6));
        return PeerMessage::Claim(task_id.to_owned());
    }
    if starts_with(message, length, "EXECUTED:", 9) {
        let rest = message.substring_char(9, length);
        assert(rest@ =~= message@.skip(9));
        let rest_length = length - 9;
        let mut first: Option<usize> = None;
        let mut second: Option<usize> = None;
        let mut i: usize = 0;
        while i < rest_length
            invariant
                i <= rest_length,
                rest_length == rest@.len(),
                match first {
                    None => second is None && forall|j: int| 0 <= j < i ==> #[trigger] rest@[j] != ':',
                    Some(at) => at < i && rest@[at as int] == ':' && forall|j: int|
                        0 <= j < at ==> #[trigger] rest@[j] != ':',
                },
                match second {
                    None => first is Some ==> forall|j: int|
                        first->0 < j < i ==> #[trigger] rest@[j] != ':',
                    Some(at) => first is Some && first->0 < at < i && rest@[at as int] == ':',
                },
            decreases rest_length - i,
        {
            if rest.get_char(i) == ':' {
                if first.is_none() {
                    first = Some(i);
                } else if second.is_none() {
                    second = Some(i);
                }
            }
            i += 1;
        }
        match (first, second) {
            (Some(pos), None) => {
                let withdrawal_id = rest.substring_char(0, pos);
                let tx_hash = rest.substring_char(pos + 1, rest_length);
                assert(is_only_colon(rest@, pos as int));
                return PeerMessage::Executed(withdrawal_id.to_owned(), tx_hash.to_owned());
            },
            _ => {
                assert forall|pos: int| !#[trigger] is_only_colon(rest@, pos) by {
                    if is_only_colon(rest@, pos) {
                        match first {
                            None => {
                                assert(rest@[pos] != ':');
                            },
                            Some(at) => {
                                let other = second->0;
                                if pos == at {
                                    assert(rest@[other as int] != ':');
                                } else {
                                    assert(rest@[at as int] != ':');
                                }
                            },
                        }
                    }
                }
                return PeerMessage::Ignored;
            },
        }
    }
    if starts_with(message, length, "DEPOSIT_NOTIFIED:", 17) {
        let deposit_id = message.substring_char(17, length);
        assert(deposit_id@ =~= message@.skip(17));
        return PeerMessage::DepositNotified(deposit_id.to_owned());
    }
    PeerMessage::Ignored
}

pub struct P2PNetwork {
    address: String,
    bootstrap_peers: usize,
    task_claims: Table<TextKey, TaskClaim>,
}

impl P2PNetwork {
    /// The claims on record, by task.
    pub closed spec fn claims(&self) -> Map<Seq<char>, TaskClaim> {
        self.task_claims@
    }

    /// The address under which this relayer claims tasks.
    pub closed spec fn address(&self) -> Seq<char> {
        self.address@
    }

    /// How many bootstrap peers are configured.
    pub closed spec fn bootstrap_peers(&self) -> nat {
        self.bootstrap_peers as nat
    }

    pub closed spec fn wf(&self) -> bool {
        self.task_claims.wf()
    }

    pub fn new(config: &RelayerConfig) -> (network: P2PNetwork)
        ensures
            network.wf(),
            network.claims() == Map::<Seq<char>, TaskClaim>::empty(),
            network.address() == config.relayer_identity.address@,
            network.bootstrap_peers() == config.p2p.bootstrap_peers@.len(),
    {
        P2PNetwork {
            address: config.relayer_identity.address.clone(),
            bootstrap_peers: config.p2p.bootstrap_peers.len(),
            task_claims: Table::new(),
        }
    }

    fn lease_end_of(now: i64) -> (end: i64)
        ensures
            end == lease_end(now),
    {
        if now > i64::MAX - CLAIM_TTL_SECS {
            i64::MAX
        } else {
            now + CLAIM_TTL_SECS
        }
    }

    /// Whether the task is claimed at the time `now`: a claim on it is on
    /// record and has not ended.
    pub fn is_task_claimed_at(&self, task_id: &str, now: i64) -> (b: bool)
        requires
            self.wf(),
        ensures
            b == claimed(self.claims(), task_id@, now),
    {
        match self.task_claims.get(&TextKey(task_id.to_owned())) {
            Some(claim) => claim.expires_at > now,
            None => false,
        }
    }

    /// Check if a task is already claimed by another relayer, by the clock.
    pub fn is_task_claimed(&self, task_id: &str) -> (b: bool)
        requires
            self.wf(),
        ensures
            exists|now: i64|
                #![trigger clock_reading(now)]
                {
                    &&& clock_reading(now)
                    &&& b == claimed(self.claims(), task_id@, now)
                },
    {
        let now = unix_now();
        let b = self.is_task_claimed_at(task_id, now);
        assert(clock_reading(now));
        b
    }

    fn put_claim(&mut self, task_id: &str, claimed_by: String, now: i64)
        requires
            old(self).wf(),
        ensures
            final(self).wf(),
            final(self).address() == old(self).address(),
            final(self).bootstrap_peers() == old(self).bootstrap_peers(),
            final(self).claims().dom() == old(self).claims().dom().insert(task_id@),
            forall|other: Seq<char>|
                other != task_id@ && old(self).claims().dom().contains(other) ==> #[trigger] final(self).claims()[other]
                    == old(self).claims()[other],
            final(self).claims()[task_id@].task_id@ == task_id@,
            final(self).claims()[task_id@].claimed_by@ == claimed_by@,
            final(self).claims()[task_id@].claimed_at == now,
            final(self).claims()[task_id@].expires_at == lease_end(now),
    {
        let claim = TaskClaim {
            task_id: task_id.to_owned(),
            claimed_by,
            claimed_at: now,
            expires_at: Self::lease_end_of(now),
        };
        self.task_claims.insert(TextKey(task_id.to_owned()), claim);
    }

    /// Claims the task for this relayer from the time `now` on, and writes
    /// the message that tells the peers: `CLAIM:` and the task.
    pub fn broadcast_task_claim_at(&mut self, task_id: &str, now: i64) -> (message: String)
        requires
            old(self).wf(),
        ensures
            final(self).wf(),
            final(self).address() == old(self).address(),
            final(self).bootstrap_peers() == old(self).bootstrap_peers(),
            final(self).claims().dom() == old(self).claims().dom().insert(task_id@),
            forall|other: Seq<char>|
                other != task_id@ && old(self).claims().dom().contains(other) ==> #[trigger] final(self).claims()[other]
                    == old(self).claims()[other],
            final(self).claims()[task_id@].task_id@ == task_id@,
            final(self).claims()[task_id@].claimed_by@ == old(self).address(),
            final(self).claims()[task_id@].claimed_at == now,
            final(self).claims()[task_id@].expires_at == lease_end(now),
            message@ == "CLAIM:"@ + task_id@,
    {
        let claimed_by = self.address.clone();
        self.put_claim(task_id, claimed_by, now);
        "CLAIM:".to_owned().concat(task_id)
    }

    /// Broadcast task claim to network, by the clock.
    pub fn broadcast_task_claim(&mut self, task_id: &str) -> (message: String)
        requires
            old(self).wf(),
        ensures
            exists|now: i64|
                #![trigger clock_reading(now)]
                {
                    &&& clock_reading(now)
                    &&& final(self).wf()
                    &&& final(self).address() == old(self).address()
                    &&& final(self).bootstrap_peers() == old(self).bootstrap_peers()
                    &&& final(self).claims().dom() == old(self).claims().dom().insert(task_id@)
                    &&& forall|other: Seq<char>|
                        other != task_id@ && old(self).claims().dom().contains(other) ==> #[trigger] final(self).claims()[other]
                            == old(self).claims()[other]
                    &&& final(self).claims()[task_id@].task_id@ == task_id@
                    &&& final(self).claims()[task_id@].claimed_by@ == old(self).address()
                    &&& final(self).claims()[task_id@].claimed_at == now
                    &&& final(self).claims()[task_id@].expires_at == lease_end(now)
                    &&& message@ == "CLAIM:"@ + task_id@
                },
    {
        let now = unix_now();
        let message = self.broadcast_task_claim_at(task_id, now);
        assert(clock_reading(now));
        message
    }

    /// Broadcast withdrawal execution completion: the claim on the
    /// withdrawal is taken off the record, and the message that tells the
    /// peers is written: `EXECUTED:`, the withdrawal, a colon and the
    /// transaction.
    pub fn broadcast_withdrawal_execution(&mut self, withdrawal_id: &str, tx_hash: &str) -> (message: String)
        requires
            old(self).wf(),
        ensures
            final(self).wf(),
            final(self).address() == old(self).address(),
            final(self).bootstrap_peers() == old(self).bootstrap_peers(),
            final(self).claims() == old(self).claims().remove(withdrawal_id@),
            message@ == "EXECUTED:"@ + withdrawal_id@ + ":"@ + tx_hash@,
    {
        let _ = self.task_claims.remove(&TextKey(withdrawal_id.to_owned()));
        "EXECUTED:".to_owned().concat(withdrawal_id).concat(":").concat(tx_hash)
    }

    /// Broadcast deposit notification: writes the message that tells the
    /// peers that the coordinator knows of the deposit.
    pub fn broadcast_deposit_notification(&self, deposit_id: &str) -> (message: String)
        ensures
            message@ == "DEPOSIT_NOTIFIED:"@ + deposit_id@,
    {
        "DEPOSIT_NOTIFIED:".to_owned().concat(deposit_id)
    }

    /// Takes in a message that came from a peer at the time `now`. A claim
    /// is put on record in the peer's name; an execution takes the claim on
    /// its withdrawal off the record; anything else changes nothing.
    pub fn handle_incoming_message_at(&mut self, message: &str, now: i64) -> (read: PeerMessage)
        requires
            old(self).wf(),
        ensures
            final(self).wf(),
            final(self).address() == old(self).address(),
            final(self).bootstrap_peers() == old(self).bootstrap_peers(),
            message_says(message@, read),
            took_in(old(self).claims(), final(self).claims(), read, now),
    {
        let read = parse_peer_message(message);
        match &read {
            PeerMessage::Claim(task_id) => {
                self.put_claim(task_id.as_str(), "peer".to_owned(), now);
            },
            PeerMessage::Executed(withdrawal_id, _) => {
                let _ = self.task_claims.remove(&TextKey(withdrawal_id.clone()));
            },
            _ => {},
        }
        read
    }

    /// Handle incoming P2P message from another relayer, by the clock.
    pub fn handle_incoming_message(&mut self, message: &str) -> (read: PeerMessage)
        requires
            old(self).wf(),
        ensures
            exists|now: i64|
                #![trigger clock_reading(now)]
                {
                    &&& clock_reading(now)
                    &&& final(self).wf()
                    &&& final(self).address() == old(self).address()
                    &&& final(self).bootstrap_peers() == old(self).bootstrap_peers()
                    &&& message_says(message@, read)
                    &&& took_in(old(self).claims(), final(self).claims(), read, now)
                },
    {
        let now = unix_now();
        let read = self.handle_incoming_message_at(message, now);
        assert(clock_reading(now));
        read
    }

    /// Takes the claims that have ended by the time `now` off the record.
    pub fn cleanup_expired_claims_at(&mut self, now: i64)
        requires
            old(self).wf(),
        ensures
            final(self).wf(),
            final(self).address() == old(self).address(),
            final(self).bootstrap_peers() == old(self).bootstrap_peers(),
            forall|task_id: Seq<char>| #[trigger]
                final(self).claims().dom().contains(task_id) <==> claimed(old(self).claims(), task_id, now),
            forall|task_id: Seq<char>| #[trigger]
                final(self).claims().dom().contains(task_id) ==> final(self).claims()[task_id] == old(self).claims()[task_id],
    {
        let ghost before = self.task_claims;
        let mut i: usize = 0;
        proof {
            before.lemma_ids();
        }
        while i < self.task_claims.len()
            invariant
                before.wf(),
                self.task_claims.wf(),
                self.address == old(self).address,
                self.bootstrap_peers == old(self).bootstrap_peers,
                before@ == old(self).claims(),
                i <= self.task_claims.ids().len(),
                forall|task_id: Seq<char>| #[trigger]
                    self.task_claims@.dom().contains(task_id) ==> before@.dom().contains(task_id)
                        && self.task_claims@[task_id] == before@[task_id],
                forall|task_id: Seq<char>|
                    claimed(before@, task_id, now) ==> #[trigger] self.task_claims@.dom().contains(task_id),
                forall|j: int|
                    0 <= j < i ==> self.task_claims@[#[trigger] self.task_claims.ids()[j]].expires_at > now,
            decreases self.task_claims.ids().len() - i,
        {
            if self.task_claims.value_at(i).expires_at > now {
                i += 1;
            } else {
                let ghost mid = self.task_claims;
                let _ = self.task_claims.remove_at(i);
                proof {
                    assert forall|j: int| 0 <= j < i implies self.task_claims@[#[trigger] self.task_claims.ids()[j]].expires_at
                        > now by {
                        assert(self.task_claims.ids()[j] == mid.ids()[j]);
                        mid.lemma_ids();
                        assert(mid.ids()[j] != mid.ids()[i as int]);
                    }
                }
            }
        }
        proof {
            self.task_claims.lemma_ids();
            assert forall|task_id: Seq<char>| #[trigger] self.claims().dom().contains(task_id) implies claimed(
                old(self).claims(),
                task_id,
                now,
            ) by {
                assert(self.task_claims.ids().to_set().contains(task_id));
                let j = choose|j: int| 0 <= j < self.task_claims.ids().len() && self.task_claims.ids()[j] == task_id;
                assert(self.task_claims@[self.task_claims.ids()[j]].expires_at > now);
            }
        }
    }

    /// Cleanup expired claims, by the clock.
    pub fn cleanup_expired_claims(&mut self)
        requires
            old(self).wf(),
        ensures
            exists|now: i64|
                #![trigger clock_reading(now)]
                {
                    &&& clock_reading(now)
                    &&& final(self).wf()
                    &&& final(self).address() == old(self).address()
                    &&& final(self).bootstrap_peers() == old(self).bootstrap_peers()
                    &&& forall|task_id: Seq<char>| #[trigger]
                        final(self).claims().dom().contains(task_id) <==> claimed(old(self).claims(), task_id, now)
                    &&& forall|task_id: Seq<char>| #[trigger]
                        final(self).claims().dom().contains(task_id) ==> final(self).claims()[task_id] == old(self).claims()[task_id]
                },
    {
        let now = unix_now();
        self.cleanup_expired_claims_at(now);
        assert(clock_reading(now));
    }

    /// Get current number of connected peers: the bootstrap peers.
    pub fn peer_count(&self) -> (n: usize)
        ensures
            n == self.bootstrap_peers(),
    {
        self.bootstrap_peers
    }

    /// Get network statistics.
    pub fn network_stats(&self) -> (stats: NetworkStats)
        requires
            self.wf(),
        ensures
            stats.connected_peers == self.bootstrap_peers(),
            stats.active_claims == self.claims().dom().len(),
            stats.bootstrap_peers == self.bootstrap_peers(),
    {
        NetworkStats {
            connected_peers: self.bootstrap_peers,
            active_claims: self.task_claims.len(),
            bootstrap_peers: self.bootstrap_peers,
        }
    }
}

/// A claim message is read as it was written: whoever takes in the message
/// that a claim on a task wrote reads a claim on that task.
pub proof fn lemma_claim_message_is_read(task_id: Seq<char>, read: PeerMessage)
    requires
        message_says("CLAIM:"@ + task_id, read),
    ensures
        read matches PeerMessage::Claim(found) && found@ == task_id,
{
    reveal_strlit("CLAIM:");
    let message = "CLAIM:"@ + task_id;
    assert(message.subrange(0, 6) =~= "CLAIM:"@);
    assert(message.skip(6) =~= task_id);
}

/// An execution message is read as it was written, where neither the
/// withdrawal nor the transaction has a colon in its name.
pub proof fn lemma_execution_message_is_read(withdrawal_id: Seq<char>, tx_hash: Seq<char>, read: PeerMessage)
    requires
        message_says("EXECUTED:"@ + withdrawal_id + ":"@ + tx_hash, read),
        forall|i: int| 0 <= i < withdrawal_id.len() ==> withdrawal_id[i] != ':',
        forall|i: int| 0 <= i < tx_hash.len() ==> tx_hash[i] != ':',
    ensures
        read matches PeerMessage::Executed(found, tx) && found@ == withdrawal_id && tx@ == tx_hash,
{
    reveal_strlit("CLAIM:");
    reveal_strlit("EXECUTED:");
    reveal_strlit(":");
    let message = "EXECUTED:"@ + withdrawal_id + ":"@ + tx_hash;
    assert(message.subrange(0, 9) =~= "EXECUTED:"@);
    assert(!has_prefix(message, "CLAIM:"@)) by {
        assert(message.subrange(0, 6)[0] == 'E');
    }
    let rest = message.skip(9);
    assert(rest =~= withdrawal_id + ":"@ + tx_hash);
    let at = withdrawal_id.len() as int;
    assert(is_only_colon(rest, at));
    assert forall|pos: int| is_only_colon(rest, pos) implies pos == at by {
        if pos != at {
            assert(rest[at] == ':');
        }
    }
    assert(rest.subrange(0, at) =~= withdrawal_id);
    assert(rest.subrange(at + 1, rest.len() as int) =~= tx_hash);
}

/// A claim holds for the length of its lease. From the time a relayer
/// claims a task until the lease ends, the task counts as claimed; a peer
/// that takes in the claim's message counts it as claimed for as long from
/// the time it took the message in.
pub proof fn lemma_claim_holds(claims: Map<Seq<char>, TaskClaim>, task_id: Seq<char>, now: i64, later: i64)
    requires
        claims.dom().contains(task_id),
        claims[task_id].expires_at == lease_end(now),
        now <= later < lease_end(now),
    ensures
        claimed(claims, task_id, later),
{
}

/// A peer's claim counts. Once a relayer has taken in, at the time `now`,
/// the message that a claim on a task wrote, the task counts as claimed with
/// that relayer at every time from `now` until the lease ends, whatever its
/// table held before.
pub proof fn lemma_peer_claim_counts(
    before: Map<Seq<char>, TaskClaim>,
    after: Map<Seq<char>, TaskClaim>,
    task_id: Seq<char>,
    read: PeerMessage,
    now: i64,
    later: i64,
)
    requires
        message_says("CLAIM:"@ + task_id, read),
        took_in(before, after, read, now),
        now <= later < lease_end(now),
    ensures
        claimed(after, task_id, later),
{
    lemma_claim_message_is_read(task_id, read);
}

} // verus!
