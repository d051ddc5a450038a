//! The coordinator's store: deposits, withdrawals, spent nullifiers, shielded
//! notes and the state of the settlement chain.
//!
//! Deposits and withdrawals are kept in creation order, each id once. The
//! store is a value in memory; whoever owns it writes its records through to
//! durable storage.

use vstd::prelude::*;
use crate::seqs::{lemma_filter_empty, lemma_filter_step, lemma_take_all};
use crate::table::{Table, TextKey};
use crate::text::{clone_opt_bytes, clone_opt_string, opt_bytes, opt_chars, str_eq};

verus! {

/// Deposit record.
#[derive(Debug)]
pub struct Deposit {
    pub deposit_id: String,
    pub source_chain_id: u64,
    pub target_chain_id: u64,
    pub sender: String,
    pub recipient: Vec<u8>,
    pub token: String,
    pub amount: u64,
    pub zcash_address: Vec<u8>,
    pub processed: bool,
    pub zcash_txid: Option<String>,
    pub note_commitment: Option<String>,
    pub created_at: i64,
}

/// Withdrawal record.
#[derive(Debug)]
pub struct Withdrawal {
    pub withdrawal_id: String,
    pub target_chain_id: u64,
    pub recipient: String,
    pub token: String,
    pub amount: u64,
    pub nullifier: Vec<u8>,
    pub zcash_proof: Vec<u8>,
    pub merkle_root: Vec<u8>,
    pub authorized: bool,
    pub auth_signature: Option<Vec<u8>>,
    pub created_at: i64,
}

/// Statistics.
#[derive(Debug, Clone, Copy, PartialEq, Eq, Structural)]
pub struct Stats {
    pub total_deposits: u64,
    pub total_withdrawals: u64,
    pub total_volume: u64,
    pub active_deposits: u64,
}

/// What the store knows of a nullifier.
#[derive(Debug, Clone, Copy)]
pub struct NullifierRecord {
    pub spent: bool,
    pub spent_at: i64,
}

/// A shielded note, filed under its commitment.
#[derive(Debug)]
pub struct ShieldedNote {
    pub txid: String,
    pub amount: u64,
    pub source_chain_id: u64,
    pub token: String,
    pub created_at: i64,
}

/// The last known state of the settlement chain.
#[derive(Debug)]
pub struct ZcashState {
    pub block_height: u32,
    pub best_block_hash: String,
    /// Verification progress in parts per million.
    pub sync_progress_ppm: u32,
    pub updated_at: i64,
}

#[derive(Debug, Clone, Copy, PartialEq, Eq, Structural)]
pub enum StoreError {
    /// A record with this id is already stored.
    DuplicateId,
}

/// A deposit as a mathematical value.
pub struct DepositView {
    pub deposit_id: Seq<char>,
    pub source_chain_id: u64,
    pub target_chain_id: u64,
    pub sender: Seq<char>,
    pub recipient: Seq<u8>,
    pub token: Seq<char>,
    pub amount: u64,
    pub zcash_address: Seq<u8>,
    pub processed: bool,
    pub zcash_txid: Option<Seq<char>>,
    pub note_commitment: Option<Seq<char>>,
    pub created_at: i64,
}

/// A withdrawal as a mathematical value.
pub struct WithdrawalView {
    pub withdrawal_id: Seq<char>,
    pub target_chain_id: u64,
    pub recipient: Seq<char>,
    pub token: Seq<char>,
    pub amount: u64,
    pub nullifier: Seq<u8>,
    pub zcash_proof: Seq<u8>,
    pub merkle_root: Seq<u8>,
    pub authorized: bool,
    pub auth_signature: Option<Seq<u8>>,
    pub created_at: i64,
}

impl View for Deposit {
    type V = DepositView;

    open spec fn view(&self) -> DepositView {
        DepositView {
            deposit_id: self.deposit_id@,
            source_chain_id: self.source_chain_id,
            target_chain_id: self.target_chain_id,
            sender: self.sender@,
            recipient: self.recipient@,
            token: self.token@,
            amount: self.amount,
            zcash_address: self.zcash_address@,
            processed: self.processed,
            zcash_txid: opt_chars(self.zcash_txid),
            note_commitment: opt_chars(self.note_commitment),
            created_at: self.created_at,
        }
    }
}

impl View for Withdrawal {
    type V = WithdrawalView;

    open spec fn view(&self) -> WithdrawalView {
        WithdrawalView {
            withdrawal_id: self.withdrawal_id@,
            target_chain_id: self.target_chain_id,
            recipient: self.recipient@,
            token: self.token@,
            amount: self.amount,
            nullifier: self.nullifier@,
            zcash_proof: self.zcash_proof@,
            merkle_root: self.merkle_root@,
            authorized: self.authorized,
            auth_signature: opt_bytes(self.auth_signature),
            created_at: self.created_at,
        }
    }
}

impl Deposit {
    pub fn duplicate(&self) -> (r: Deposit)
        ensures
            r@ == self@,
    {
        Deposit {
            deposit_id: self.deposit_id.clone(),
            source_chain_id: self.source_chain_id,
            target_chain_id: self.target_chain_id,
            sender: self.sender.clone(),
            recipient: self.recipient.clone(),
            token: self.token.clone(),
            amount: self.amount,
            zcash_address: self.zcash_address.clone(),
            processed: self.processed,
            zcash_txid: clone_opt_string(&self.zcash_txid),
            note_commitment: clone_opt_string(&self.note_commitment),
            created_at: self.created_at,
        }
    }
}

impl Withdrawal {
    pub fn duplicate(&self) -> (r: Withdrawal)
        ensures
            r@ == self@,
    {
        Withdrawal {
            withdrawal_id: self.withdrawal_id.clone(),
            target_chain_id: self.target_chain_id,
            recipient: self.recipient.clone(),
            token: self.token.clone(),
            amount: self.amount,
            nullifier: self.nullifier.clone(),
            zcash_proof: self.zcash_proof.clone(),
            merkle_root: self.merkle_root.clone(),
            authorized: self.authorized,
            auth_signature: clone_opt_bytes(&self.auth_signature),
            created_at: self.created_at,
        }
    }
}

/// The views of a list of deposits.
pub open spec fn deposit_views(deposits: Seq<Deposit>) -> Seq<DepositView> {
    deposits.map_values(|d: Deposit| d@)
}

/// The views of a list of withdrawals.
pub open spec fn withdrawal_views(withdrawals: Seq<Withdrawal>) -> Seq<WithdrawalView> {
    withdrawals.map_values(|w: Withdrawal| w@)
}

/// No deposit id occurs twice, and the deposits are in creation order.
pub open spec fn deposits_in_order(deposits: Seq<DepositView>) -> bool {
    &&& forall|i: int, j: int|
        0 <= i < j < deposits.len() ==> (#[trigger] deposits[i]).deposit_id != (#[trigger] deposits[j]).deposit_id
    &&& forall|i: int, j: int|
        0 <= i < j < deposits.len() ==> (#[trigger] deposits[i]).created_at <= (#[trigger] deposits[j]).created_at
}

/// No withdrawal id occurs twice, and the withdrawals are in creation order.
pub open spec fn withdrawals_in_order(withdrawals: Seq<WithdrawalView>) -> bool {
    &&& forall|i: int, j: int|
        0 <= i < j < withdrawals.len() ==> (#[trigger] withdrawals[i]).withdrawal_id != (
        #[trigger] withdrawals[j]).withdrawal_id
    &&& forall|i: int, j: int|
        0 <= i < j < withdrawals.len() ==> (#[trigger] withdrawals[i]).created_at <= (
        #[trigger] withdrawals[j]).created_at
}

/// Some deposit has the id `id`.
pub open spec fn has_deposit(deposits: Seq<DepositView>, id: Seq<char>) -> bool {
    exists|i: int| 0 <= i < deposits.len() && (#[trigger] deposits[i]).deposit_id == id
}

/// Some withdrawal has the id `id`.
pub open spec fn has_withdrawal(withdrawals: Seq<WithdrawalView>, id: Seq<char>) -> bool {
    exists|i: int| 0 <= i < withdrawals.len() && (#[trigger] withdrawals[i]).withdrawal_id == id
}

/// The place of the deposit with the id `id`. Meaningful where there is one.
pub open spec fn deposit_index(deposits: Seq<DepositView>, id: Seq<char>) -> int {
    choose|i: int| 0 <= i < deposits.len() && (#[trigger] deposits[i]).deposit_id == id
}

/// The place of the withdrawal with the id `id`. Meaningful where there is one.
pub open spec fn withdrawal_index(withdrawals: Seq<WithdrawalView>, id: Seq<char>) -> int {
    choose|i: int| 0 <= i < withdrawals.len() && (#[trigger] withdrawals[i]).withdrawal_id == id
}

/// Among records in creation order, `pos` is where a record created at `at`
/// goes: behind every record that is not younger.
pub open spec fn is_insertion_point(times: Seq<i64>, at: i64, pos: int) -> bool {
    &&& 0 <= pos <= times.len()
    &&& forall|j: int| 0 <= j < pos ==> #[trigger] times[j] <= at
    &&& forall|j: int| pos <= j < times.len() ==> #[trigger] times[j] > at
}

/// The creation times of a list of deposits.
pub open spec fn deposit_times(deposits: Seq<DepositView>) -> Seq<i64> {
    deposits.map_values(|d: DepositView| d.created_at)
}

/// The creation times of a list of withdrawals.
pub open spec fn withdrawal_times(withdrawals: Seq<WithdrawalView>) -> Seq<i64> {
    withdrawals.map_values(|w: WithdrawalView| w.created_at)
}

/// The deposit `d`, processed into the note `commitment` by the settlement
/// transaction `txid`.
pub open spec fn processed_deposit(d: DepositView, commitment: Seq<char>, txid: Seq<char>) -> DepositView {
    DepositView { processed: true, note_commitment: Some(commitment), zcash_txid: Some(txid), ..d }
}

/// The deposits with the one of id `id` marked processed.
pub open spec fn with_processed(
    deposits: Seq<DepositView>,
    id: Seq<char>,
    commitment: Seq<char>,
    txid: Seq<char>,
) -> Seq<DepositView> {
    deposits.map_values(
        |d: DepositView|
            if d.deposit_id == id {
                processed_deposit(d, commitment, txid)
            } else {
                d
            },
    )
}

/// The deposit `d`, pending again: without a note or a settlement
/// transaction.
pub open spec fn reopened_deposit(d: DepositView) -> DepositView {
    DepositView { processed: false, note_commitment: None, zcash_txid: None, ..d }
}

/// The deposits with the one of id `id` pending again.
pub open spec fn with_reopened(deposits: Seq<DepositView>, id: Seq<char>) -> Seq<DepositView> {
    deposits.map_values(
        |d: DepositView|
            if d.deposit_id == id {
                reopened_deposit(d)
            } else {
                d
            },
    )
}

/// The withdrawal `w`, authorized under `signature`.
pub open spec fn authorized_withdrawal(w: WithdrawalView, signature: Seq<u8>) -> WithdrawalView {
    WithdrawalView { authorized: true, auth_signature: Some(signature), ..w }
}

/// The withdrawals with the one of id `id` authorized under `signature`.
pub open spec fn with_authorized(withdrawals: Seq<WithdrawalView>, id: Seq<char>, signature: Seq<u8>) -> Seq<
    WithdrawalView,
> {
    withdrawals.map_values(
        |w: WithdrawalView|
            if w.withdrawal_id == id {
                authorized_withdrawal(w, signature)
            } else {
                w
            },
    )
}

/// The withdrawals without the one of id `id`.
pub open spec fn without_withdrawal(withdrawals: Seq<WithdrawalView>, id: Seq<char>) -> Seq<WithdrawalView> {
    withdrawals.filter(|w: WithdrawalView| w.withdrawal_id != id)
}

/// The sum of the amounts of the processed deposits.
pub open spec fn processed_volume(deposits: Seq<DepositView>) -> int
    decreases deposits.len(),
{
    if deposits.len() == 0 {
        0
    } else {
        processed_volume(deposits.drop_last()) + if deposits.last().processed {
            deposits.last().amount as int
        } else {
            0
        }
    }
}

/// The statistics of a store with these deposits and withdrawals: the
/// processed deposits, the authorized withdrawals, the volume of the
/// processed deposits (at most `u64::MAX`), and the deposits less the
/// withdrawals in wrapping 64-bit arithmetic.
pub open spec fn stats_of(deposits: Seq<DepositView>, withdrawals: Seq<WithdrawalView>) -> Stats {
    let processed = deposits.filter(|d: DepositView| d.processed).len();
    let authorized = withdrawals.filter(|w: WithdrawalView| w.authorized).len();
    Stats {
        total_deposits: processed as u64,
        total_withdrawals: authorized as u64,
        total_volume: if processed_volume(deposits) > u64::MAX {
            u64::MAX
        } else {
            processed_volume(deposits) as u64
        },
        active_deposits: if processed >= authorized {
            (processed - authorized) as u64
        } else {
            (processed - authorized + 0x1_0000_0000_0000_0000) as u64
        },
    }
}

pub struct Database {
    deposits: Vec<Deposit>,
    withdrawals: Vec<Withdrawal>,
    nullifiers: Table<TextKey, NullifierRecord>,
    shielded_notes: Table<TextKey, ShieldedNote>,
    zcash_state: Option<ZcashState>,
}

impl Database {
    /// The deposits in creation order.
    pub closed spec fn deposits(&self) -> Seq<DepositView> {
        deposit_views(self.deposits@)
    }

    /// The withdrawals in creation order.
    pub closed spec fn withdrawals(&self) -> Seq<WithdrawalView> {
        withdrawal_views(self.withdrawals@)
    }

    /// The nullifiers on record, by their text.
    pub closed spec fn nullifiers(&self) -> Map<Seq<char>, NullifierRecord> {
        self.nullifiers@
    }

    /// The shielded notes, by their commitment.
    pub closed spec fn shielded_notes(&self) -> Map<Seq<char>, ShieldedNote> {
        self.shielded_notes@
    }

    /// The last known state of the settlement chain.
    pub closed spec fn zcash_state(&self) -> Option<ZcashState> {
        self.zcash_state
    }

    pub closed spec fn tables_wf(&self) -> bool {
        &&& self.nullifiers.wf()
        &&& self.shielded_notes.wf()
    }

    pub open spec fn wf(&self) -> bool {
        &&& self.tables_wf()
        &&& deposits_in_order(self.deposits())
        &&& withdrawals_in_order(self.withdrawals())
    }

    /// The nullifier is on record as spent.
    pub open spec fn spent(&self, nullifier: Seq<char>) -> bool {
        self.nullifiers().dom().contains(nullifier) && self.nullifiers()[nullifier].spent
    }

    /// An empty store.
    pub fn new() -> (db: Database)
        ensures
            db.wf(),
            db.deposits() == Seq::<DepositView>::empty(),
            db.withdrawals() == Seq::<WithdrawalView>::empty(),
            db.nullifiers() == Map::<Seq<char>, NullifierRecord>::empty(),
            db.shielded_notes() == Map::<Seq<char>, ShieldedNote>::empty(),
            db.zcash_state() is None,
    {
        let db = Database {
            deposits: Vec::new(),
            withdrawals: Vec::new(),
            nullifiers: Table::new(),
            shielded_notes: Table::new(),
            zcash_state: None,
        };
        assert(db.deposits() =~= Seq::<DepositView>::empty());
        assert(db.withdrawals() =~= Seq::<WithdrawalView>::empty());
        db
    }

    // ============ Deposit Operations ============
    fn find_deposit(&self, deposit_id: &str) -> (r: Option<usize>)
        ensures
            match r {
                Some(i) => i < self.deposits().len() && self.deposits()[i as int].deposit_id == deposit_id@,
                None => !has_deposit(self.deposits(), deposit_id@),
            },
    {
        let mut i: usize = 0;
        while i < self.deposits.len()
            invariant
                i <= self.deposits@.len(),
                forall|j: int| 0 <= j < i ==> (#[trigger] self.deposits()[j]).deposit_id != deposit_id@,
            decreases self.deposits@.len() - i,
        {
            if str_eq(self.deposits[i].deposit_id.as_str(), deposit_id) {
                return Some(i);
            }
            i += 1;
        }
        None
    }

    /// The deposit with the id `deposit_id`, if it is stored.
    pub fn get_deposit(&self, deposit_id: &str) -> (r: Option<&Deposit>)
        requires
            self.wf(),
        ensures
            match r {
                Some(d) => has_deposit(self.deposits(), deposit_id@) && d@ == self.deposits()[deposit_index(
                    self.deposits(),
                    deposit_id@,
                )] && d@.deposit_id == deposit_id@,
                None => !has_deposit(self.deposits(), deposit_id@),
            },
    {
        match self.find_deposit(deposit_id) {
            Some(i) => Some(&self.deposits[i]),
            None => None,
        }
    }

    /// How many deposits are stored.
    pub fn deposit_count(&self) -> (n: usize)
        ensures
            n == self.deposits().len(),
    {
        self.deposits.len()
    }

    /// The deposit at a place in creation order.
    pub fn deposit_at(&self, i: usize) -> (d: &Deposit)
        requires
            i < self.deposits().len(),
        ensures
            d@ == self.deposits()[i as int],
    {
        &self.deposits[i]
    }

    /// Stores a new deposit behind the stored deposits that are not younger.
    /// A deposit whose id is already stored is refused, and the store stays
    /// as it was.
    pub fn store_deposit(&mut self, deposit: Deposit) -> (r: Result<(), StoreError>)
        requires
            old(self).wf(),
        ensures
            final(self).wf(),
            final(self).withdrawals() == old(self).withdrawals(),
            final(self).nullifiers() == old(self).nullifiers(),
            final(self).shielded_notes() == old(self).shielded_notes(),
            final(self).zcash_state() == old(self).zcash_state(),
            match r {
                Ok(()) => {
                    &&& !has_deposit(old(self).deposits(), deposit@.deposit_id)
                    &&& exists|pos: int|
                        {
                            &&& #[trigger] is_insertion_point(
                                deposit_times(old(self).deposits()),
                                deposit.created_at,
                                pos,
                            )
                            &&& final(self).deposits() == old(self).deposits().insert(pos, deposit@)
                        }
                },
                Err(StoreError::DuplicateId) => {
                    &&& has_deposit(old(self).deposits(), deposit@.deposit_id)
                    &&& final(self).deposits() == old(self).deposits()
                },
            },
    {
        if self.find_deposit(deposit.deposit_id.as_str()).is_some() {
            return Err(StoreError::DuplicateId);
        }
        let ghost before = self.deposits();
        let mut pos: usize = 0;
        while pos < self.deposits.len() && self.deposits[pos].created_at <= deposit.created_at
            invariant
                pos <= self.deposits@.len(),
                before == self.deposits(),
                forall|j: int| 0 <= j < pos ==> (#[trigger] before[j]).created_at <= deposit.created_at,
            decreases self.deposits@.len() - pos,
        {
            pos += 1;
        }
        let ghost view = deposit@;
        self.deposits.insert(pos, deposit);
        proof {
            assert(self.deposits() =~= before.insert(pos as int, view));
            assert(is_insertion_point(deposit_times(before), view.created_at, pos as int)) by {
                assert forall|j: int| pos <= j < before.len() implies #[trigger] deposit_times(before)[j]
                    > view.created_at by {
                    assert(before[pos as int].created_at <= before[j].created_at || j == pos);
                }
            }
            assert(deposits_in_order(self.deposits())) by {
                let after = self.deposits();
                assert forall|i: int, j: int| 0 <= i < j < after.len() implies (#[trigger] after[i]).deposit_id != (
                #[trigger] after[j]).deposit_id && after[i].created_at <= after[j].created_at by {
                    let oi = if i < pos { i } else { i - 1 };
                    let oj = if j < pos { j } else { j - 1 };
                    if i != pos && j != pos {
                        assert(before[oi].deposit_id != before[oj].deposit_id);
                        assert(before[oi].created_at <= before[oj].created_at);
                    } else if i == pos {
                        assert(before[oj].deposit_id != view.deposit_id);
                        assert(deposit_times(before)[oj] > view.created_at);
                    } else {
                        assert(before[oi].deposit_id != view.deposit_id);
                    }
                }
            }
        }
        Ok(())
    }

    /// The deposits not yet processed, in creation order.
    pub fn get_pending_deposits(&self) -> (pending: Vec<Deposit>)
        requires
            self.wf(),
        ensures
            deposit_views(pending@) == self.deposits().filter(|d: DepositView| !d.processed),
    {
        let ghost pred = |d: DepositView| !d.processed;
        let ghost all = self.deposits();
        let mut pending: Vec<Deposit> = Vec::new();
        let mut i: usize = 0;
        proof {
            lemma_filter_empty(all, pred);
            assert(deposit_views(pending@) =~= Seq::<DepositView>::empty());
        }
        while i < self.deposits.len()
            invariant
                i <= self.deposits@.len(),
                all == self.deposits(),
                pred == (|d: DepositView| !d.processed),
                deposit_views(pending@) == all.take(i as int).filter(pred),
            decreases self.deposits@.len() - i,
        {
            let ghost before = pending@;
            proof {
                lemma_filter_step(all, pred, i as int);
            }
            if !self.deposits[i].processed {
                pending.push(self.deposits[i].duplicate());
                assert(deposit_views(pending@) =~= deposit_views(before).push(all[i as int]));
            }
            i += 1;
        }
        proof {
            lemma_take_all(all);
        }
        pending
    }

    /// Marks the deposit with the id `deposit_id` processed, with its note
    /// commitment and settlement transaction. Says whether there is such a
    /// deposit; if there is none, the store stays as it was.
    pub fn mark_deposit_processed(&mut self, deposit_id: &str, note_commitment: &str, zcash_txid: &str) -> (found:
        bool)
        requires
            old(self).wf(),
        ensures
            final(self).wf(),
            final(self).withdrawals() == old(self).withdrawals(),
            final(self).nullifiers() == old(self).nullifiers(),
            final(self).shielded_notes() == old(self).shielded_notes(),
            final(self).zcash_state() == old(self).zcash_state(),
            found == has_deposit(old(self).deposits(), deposit_id@),
            final(self).deposits() == with_processed(old(self).deposits(), deposit_id@, note_commitment@, zcash_txid@),
    {
        let ghost before = self.deposits();
        match self.find_deposit(deposit_id) {
            None => {
                assert(self.deposits() =~= with_processed(before, deposit_id@, note_commitment@, zcash_txid@));
                false
            },
            Some(i) => {
                let mut updated = self.deposits[i].duplicate();
                updated.processed = true;
                updated.note_commitment = Some(note_commitment.to_owned());
                updated.zcash_txid = Some(zcash_txid.to_owned());
                self.deposits.set(i, updated);
                proof {
                    let after = with_processed(before, deposit_id@, note_commitment@, zcash_txid@);
                    assert forall|j: int| 0 <= j < before.len() implies #[trigger] self.deposits()[j] == after[j] by {
                        if j != i {
                            assert(before[j].deposit_id != before[i as int].deposit_id);
                        }
                    }
                    assert(self.deposits() =~= after);
                    assert(deposits_in_order(self.deposits())) by {
                        assert forall|a: int, b: int| 0 <= a < b < after.len() implies (#[trigger] after[a]).deposit_id
                            != (#[trigger] after[b]).deposit_id && after[a].created_at <= after[b].created_at by {
                            assert(before[a].deposit_id != before[b].deposit_id);
                            assert(before[a].created_at <= before[b].created_at);
                        }
                    }
                }
                true
            },
        }
    }

    /// Makes the deposit with the id `deposit_id` pending again, without
    /// its note commitment and settlement transaction. Says whether there
    /// is such a deposit; if there is none, the store stays as it was.
    pub fn reopen_deposit(&mut self, deposit_id: &str) -> (found: bool)
        requires
            old(self).wf(),
        ensures
            final(self).wf(),
            final(self).withdrawals() == old(self).withdrawals(),
            final(self).nullifiers() == old(self).nullifiers(),
            final(self).shielded_notes() == old(self).shielded_notes(),
            final(self).zcash_state() == old(self).zcash_state(),
            found == has_deposit(old(self).deposits(), deposit_id@),
            final(self).deposits() == with_reopened(old(self).deposits(), deposit_id@),
    {
        let ghost before = self.deposits();
        match self.find_deposit(deposit_id) {
            None => {
                assert(self.deposits() =~= with_reopened(before, deposit_id@));
                false
            },
            Some(i) => {
                let mut updated = self.deposits[i].duplicate();
                updated.processed = false;
                updated.note_commitment = None;
                updated.zcash_txid = None;
                self.deposits.set(i, updated);
                proof {
                    let after = with_reopened(before, deposit_id@);
                    assert forall|j: int| 0 <= j < before.len() implies #[trigger] self.deposits()[j] == after[j] by {
                        if j != i {
                            assert(before[j].deposit_id != before[i as int].deposit_id);
                        }
                    }
                    assert(self.deposits() =~= after);
                    assert(deposits_in_order(self.deposits())) by {
                        assert forall|a: int, b: int| 0 <= a < b < after.len() implies (#[trigger] after[a]).deposit_id
                            != (#[trigger] after[b]).deposit_id && after[a].created_at <= after[b].created_at by {
                            assert(before[a].deposit_id != before[b].deposit_id);
                            assert(before[a].created_at <= before[b].created_at);
                        }
                    }
                }
                true
            },
        }
    }

    // ============ Withdrawal Operations ============
    fn find_withdrawal(&self, withdrawal_id: &str) -> (r: Option<usize>)
        ensures
            match r {
                Some(i) => i < self.withdrawals().len() && self.withdrawals()[i as int].withdrawal_id
                    == withdrawal_id@,
                None => !has_withdrawal(self.withdrawals(), withdrawal_id@),
            },
    {
        let mut i: usize = 0;
        while i < self.withdrawals.len()
            invariant
                i <= self.withdrawals@.len(),
                forall|j: int| 0 <= j < i ==> (#[trigger] self.withdrawals()[j]).withdrawal_id != withdrawal_id@,
            decreases self.withdrawals@.len() - i,
        {
            if str_eq(self.withdrawals[i].withdrawal_id.as_str(), withdrawal_id) {
                return Some(i);
            }
            i += 1;
        }
        None
    }

    /// The withdrawal with the id `withdrawal_id`, if it is stored.
    pub fn get_withdrawal(&self, withdrawal_id: &str) -> (r: Option<&Withdrawal>)
        requires
            self.wf(),
        ensures
            match r {
                Some(w) => has_withdrawal(self.withdrawals(), withdrawal_id@) && w@ == self.withdrawals()[
                    withdrawal_index(self.withdrawals(), withdrawal_id@)] && w@.withdrawal_id == withdrawal_id@,
                None => !has_withdrawal(self.withdrawals(), withdrawal_id@),
            },
    {
        match self.find_withdrawal(withdrawal_id) {
            Some(i) => Some(&self.withdrawals[i]),
            None => None,
        }
    }

    /// How many withdrawals are stored.
    pub fn withdrawal_count(&self) -> (n: usize)
        ensures
            n == self.withdrawals().len(),
    {
        self.withdrawals.len()
    }

    /// The withdrawal at a place in creation order.
    pub fn withdrawal_at(&self, i: usize) -> (w: &Withdrawal)
        requires
            i < self.withdrawals().len(),
        ensures
            w@ == self.withdrawals()[i as int],
    {
        &self.withdrawals[i]
    }

    /// Stores a new withdrawal behind the stored withdrawals that are not
    /// younger. A withdrawal whose id is already stored is refused, and the
    /// store stays as it was.
    pub fn store_withdrawal(&mut self, withdrawal: Withdrawal) -> (r: Result<(), StoreError>)
        requires
            old(self).wf(),
        ensures
            final(self).wf(),
            final(self).deposits() == old(self).deposits(),
            final(self).nullifiers() == old(self).nullifiers(),
            final(self).shielded_notes() == old(self).shielded_notes(),
            final(self).zcash_state() == old(self).zcash_state(),
            match r {
                Ok(()) => {
                    &&& !has_withdrawal(old(self).withdrawals(), withdrawal@.withdrawal_id)
                    &&& exists|pos: int|
                        {
                            &&& #[trigger] is_insertion_point(
                                withdrawal_times(old(self).withdrawals()),
                                withdrawal.created_at,
                                pos,
                            )
                            &&& final(self).withdrawals() == old(self).withdrawals().insert(pos, withdrawal@)
                        }
                },
                Err(StoreError::DuplicateId) => {
                    &&& has_withdrawal(old(self).withdrawals(), withdrawal@.withdrawal_id)
                    &&& final(self).withdrawals() == old(self).withdrawals()
                },
            },
    {
        if self.find_withdrawal(withdrawal.withdrawal_id.as_str()).is_some() {
            return Err(StoreError::DuplicateId);
        }
        let ghost before = self.withdrawals();
        let mut pos: usize = 0;
        while pos < self.withdrawals.len() && self.withdrawals[pos].created_at <= withdrawal.created_at
            invariant
                pos <= self.withdrawals@.len(),
                before == self.withdrawals(),
                forall|j: int| 0 <= j < pos ==> (#[trigger] before[j]).created_at <= withdrawal.created_at,
            decreases self.withdrawals@.len() - pos,
        {
            pos += 1;
        }
        let ghost view = withdrawal@;
        self.withdrawals.insert(pos, withdrawal);
        proof {
            assert(self.withdrawals() =~= before.insert(pos as int, view));
            assert(is_insertion_point(withdrawal_times(before), view.created_at, pos as int)) by {
                assert forall|j: int| pos <= j < before.len() implies #[trigger] withdrawal_times(before)[j]
                    > view.created_at by {
                    assert(before[pos as int].created_at <= before[j].created_at || j == pos);
                }
            }
            assert(withdrawals_in_order(self.withdrawals())) by {
                let after = self.withdrawals();
                assert forall|i: int, j: int| 0 <= i < j < after.len() implies (#[trigger] after[i]).withdrawal_id
                    != (#[trigger] after[j]).withdrawal_id && after[i].created_at <= after[j].created_at by {
                    let oi = if i < pos { i } else { i - 1 };
                    let oj = if j < pos { j } else { j - 1 };
                    if i != pos && j != pos {
                        assert(before[oi].withdrawal_id != before[oj].withdrawal_id);
                        assert(before[oi].created_at <= before[oj].created_at);
                    } else if i == pos {
                        assert(before[oj].withdrawal_id != view.withdrawal_id);
                        assert(withdrawal_times(before)[oj] > view.created_at);
                    } else {
                        assert(before[oi].withdrawal_id != view.withdrawal_id);
                    }
                }
            }
        }
        Ok(())
    }

    fn select_withdrawals(&self, authorized: bool) -> (selected: Vec<Withdrawal>)
        ensures
            withdrawal_views(selected@) == self.withdrawals().filter(
                |w: WithdrawalView| w.authorized == authorized,
            ),
    {
        let ghost pred = |w: WithdrawalView| w.authorized == authorized;
        let ghost all = self.withdrawals();
        let mut selected: Vec<Withdrawal> = Vec::new();
        let mut i: usize = 0;
        proof {
            lemma_filter_empty(all, pred);
            assert(withdrawal_views(selected@) =~= Seq::<WithdrawalView>::empty());
        }
        while i < self.withdrawals.len()
            invariant
                i <= self.withdrawals@.len(),
                all == self.withdrawals(),
                pred == (|w: WithdrawalView| w.authorized == authorized),
                withdrawal_views(selected@) == all.take(i as int).filter(pred),
            decreases self.withdrawals@.len() - i,
        {
            let ghost before = selected@;
            proof {
                lemma_filter_step(all, pred, i as int);
            }
            if self.withdrawals[i].authorized == authorized {
                selected.push(self.withdrawals[i].duplicate());
                assert(withdrawal_views(selected@) =~= withdrawal_views(before).push(all[i as int]));
            }
            i += 1;
        }
        proof {
            lemma_take_all(all);
        }
        selected
    }

    /// The withdrawals not yet authorized, in creation order.
    pub fn get_pending_withdrawals(&self) -> (pending: Vec<Withdrawal>)
        requires
            self.wf(),
        ensures
            withdrawal_views(pending@) == self.withdrawals().filter(|w: WithdrawalView| w.authorized == false),
    {
        self.select_withdrawals(false)
    }

    /// The authorized withdrawals, in creation order.
    pub fn get_authorized_withdrawals(&self) -> (authorized: Vec<Withdrawal>)
        requires
            self.wf(),
        ensures
            withdrawal_views(authorized@) == self.withdrawals().filter(|w: WithdrawalView| w.authorized == true),
    {
        self.select_withdrawals(true)
    }

    /// Authorizes the withdrawal with the id `withdrawal_id` under
    /// `auth_signature`. Says whether there is such a withdrawal; if there
    /// is none, the store stays as it was.
    pub fn authorize_withdrawal(
        &mut self,
        withdrawal_id: &str,
        _token_address: &str,
        _amount: u64,
        auth_signature: &[u8],
    ) -> (found: bool)
        requires
            old(self).wf(),
        ensures
            final(self).wf(),
            final(self).deposits() == old(self).deposits(),
            final(self).nullifiers() == old(self).nullifiers(),
            final(self).shielded_notes() == old(self).shielded_notes(),
            final(self).zcash_state() == old(self).zcash_state(),
            found == has_withdrawal(old(self).withdrawals(), withdrawal_id@),
            final(self).withdrawals() == with_authorized(old(self).withdrawals(), withdrawal_id@, auth_signature@),
    {
        let ghost before = self.withdrawals();
        match self.find_withdrawal(withdrawal_id) {
            None => {
                assert(self.withdrawals() =~= with_authorized(before, withdrawal_id@, auth_signature@));
                false
            },
            Some(i) => {
                let mut updated = self.withdrawals[i].duplicate();
                updated.authorized = true;
                updated.auth_signature = Some(vstd::slice::slice_to_vec(auth_signature));
                self.withdrawals.set(i, updated);
                proof {
                    let after = with_authorized(before, withdrawal_id@, auth_signature@);
                    assert forall|j: int| 0 <= j < before.len() implies #[trigger] self.withdrawals()[j]
                        == after[j] by {
                        if j != i {
                            assert(before[j].withdrawal_id != before[i as int].withdrawal_id);
                        }
                    }
                    assert(self.withdrawals() =~= after);
                    assert(withdrawals_in_order(self.withdrawals())) by {
                        assert forall|a: int, b: int| 0 <= a < b < after.len() implies (
                        #[trigger] after[a]).withdrawal_id != (#[trigger] after[b]).withdrawal_id
                            && after[a].created_at <= after[b].created_at by {
                            assert(before[a].withdrawal_id != before[b].withdrawal_id);
                            assert(before[a].created_at <= before[b].created_at);
                        }
                    }
                }
                true
            },
        }
    }

    /// Discards the withdrawal with the id `withdrawal_id`. Says whether
    /// there was such a withdrawal.
    pub fn mark_withdrawal_invalid(&mut self, withdrawal_id: &str, _reason: &str) -> (found: bool)
        requires
            old(self).wf(),
        ensures
            final(self).wf(),
            final(self).deposits() == old(self).deposits(),
            final(self).nullifiers() == old(self).nullifiers(),
            final(self).shielded_notes() == old(self).shielded_notes(),
            final(self).zcash_state() == old(self).zcash_state(),
            found == has_withdrawal(old(self).withdrawals(), withdrawal_id@),
            !has_withdrawal(final(self).withdrawals(), withdrawal_id@),
            match found {
                true => final(self).withdrawals() == old(self).withdrawals().remove(
                    withdrawal_index(old(self).withdrawals(), withdrawal_id@),
                ),
                false => final(self).withdrawals() == old(self).withdrawals(),
            },
    {
        let ghost before = self.withdrawals();
        match self.find_withdrawal(withdrawal_id) {
            None => false,
            Some(i) => {
                let _ = self.withdrawals.remove(i);
                proof {
                    let k = withdrawal_index(before, withdrawal_id@);
                    assert(before[i as int].withdrawal_id == withdrawal_id@);
                    assert(k == i) by {
                        if k != i {
                            assert(before[k].withdrawal_id == before[i as int].withdrawal_id);
                        }
                    }
                    let after = before.remove(i as int);
                    assert(self.withdrawals() =~= after);
                    assert forall|a: int, b: int| 0 <= a < b < after.len() implies (
                    #[trigger] after[a]).withdrawal_id != (#[trigger] after[b]).withdrawal_id && after[a].created_at
                        <= after[b].created_at by {
                        let oa = if a < i { a } else { a + 1 };
                        let ob = if b < i { b } else { b + 1 };
                        assert(before[oa].withdrawal_id != before[ob].withdrawal_id);
                        assert(before[oa].created_at <= before[ob].created_at);
                    }
                    assert forall|a: int| 0 <= a < after.len() implies (#[trigger] after[a]).withdrawal_id
                        != withdrawal_id@ by {
                        let oa = if a < i { a } else { a + 1 };
                        assert(before[oa].withdrawal_id != before[i as int].withdrawal_id);
                    }
                }
                true
            },
        }
    }

    // ============ Nullifier Operations ============
    /// Records the nullifier as spent at the time `now`.
    pub fn mark_nullifier_spent(&mut self, nullifier: &str, now: i64)
        requires
            old(self).wf(),
        ensures
            final(self).wf(),
            final(self).deposits() == old(self).deposits(),
            final(self).withdrawals() == old(self).withdrawals(),
            final(self).shielded_notes() == old(self).shielded_notes(),
            final(self).zcash_state() == old(self).zcash_state(),
            final(self).nullifiers() == old(self).nullifiers().insert(
                nullifier@,
                NullifierRecord { spent: true, spent_at: now },
            ),
    {
        self.nullifiers.insert(TextKey(nullifier.to_owned()), NullifierRecord { spent: true, spent_at: now });
    }

    /// Whether the nullifier is on record as spent.
    pub fn is_nullifier_spent(&self, nullifier: &str) -> (spent: bool)
        requires
            self.wf(),
        ensures
            spent == self.spent(nullifier@),
    {
        match self.nullifiers.get(&TextKey(nullifier.to_owned())) {
            Some(record) => record.spent,
            None => false,
        }
    }

    // ============ Shielded Note Operations ============
    /// Files a shielded note under its commitment. A commitment that is
    /// already on file is refused, and the store stays as it was.
    pub fn store_shielded_note(
        &mut self,
        commitment: &str,
        txid: &str,
        amount: u64,
        source_chain_id: u64,
        token: &str,
        now: i64,
    ) -> (r: Result<(), StoreError>)
        requires
            old(self).wf(),
        ensures
            final(self).wf(),
            final(self).deposits() == old(self).deposits(),
            final(self).withdrawals() == old(self).withdrawals(),
            final(self).nullifiers() == old(self).nullifiers(),
            final(self).zcash_state() == old(self).zcash_state(),
            match r {
                Ok(()) => {
                    &&& !old(self).shielded_notes().dom().contains(commitment@)
                    &&& final(self).shielded_notes().dom() == old(self).shielded_notes().dom().insert(commitment@)
                    &&& forall|other: Seq<char>|
                        old(self).shielded_notes().dom().contains(other) ==> #[trigger] final(self).shielded_notes()[other] == old(self).shielded_notes()[other]
                    &&& final(self).shielded_notes()[commitment@].txid@ == txid@
                    &&& final(self).shielded_notes()[commitment@].amount == amount
                    &&& final(self).shielded_notes()[commitment@].source_chain_id == source_chain_id
                    &&& final(self).shielded_notes()[commitment@].token@ == token@
                    &&& final(self).shielded_notes()[commitment@].created_at == now
                },
                Err(StoreError::DuplicateId) => {
                    &&& old(self).shielded_notes().dom().contains(commitment@)
                    &&& final(self).shielded_notes() == old(self).shielded_notes()
                },
            },
    {
        let key = TextKey(commitment.to_owned());
        if self.shielded_notes.contains_key(&key) {
            return Err(StoreError::DuplicateId);
        }
        let note = ShieldedNote {
            txid: txid.to_owned(),
            amount,
            source_chain_id,
            token: token.to_owned(),
            created_at: now,
        };
        self.shielded_notes.insert(key, note);
        Ok(())
    }

    // ============ Zcash State Operations ============
    /// Replaces the known state of the settlement chain.
    pub fn update_zcash_state(&mut self, block_height: u32, best_block_hash: &str, sync_progress_ppm: u32, now: i64)
        requires
            old(self).wf(),
        ensures
            final(self).wf(),
            final(self).deposits() == old(self).deposits(),
            final(self).withdrawals() == old(self).withdrawals(),
            final(self).nullifiers() == old(self).nullifiers(),
            final(self).shielded_notes() == old(self).shielded_notes(),
            final(self).zcash_state() is Some,
            final(self).zcash_state()->0.block_height == block_height,
            final(self).zcash_state()->0.best_block_hash@ == best_block_hash@,
            final(self).zcash_state()->0.sync_progress_ppm == sync_progress_ppm,
            final(self).zcash_state()->0.updated_at == now,
    {
        self.zcash_state = Some(
            ZcashState { block_height, best_block_hash: best_block_hash.to_owned(), sync_progress_ppm, updated_at: now },
        );
    }

    // ============ Statistics ============
    /// The statistics of the store.
    pub fn get_stats(&self) -> (stats: Stats)
        requires
            self.wf(),
        ensures
            stats == stats_of(self.deposits(), self.withdrawals()),
    {
        let ghost deposits = self.deposits();
        let ghost withdrawals = self.withdrawals();
        let ghost is_processed = |d: DepositView| d.processed;
        let ghost is_authorized = |w: WithdrawalView| w.authorized;
        let mut processed: u64 = 0;
        let mut volume: u64 = 0;
        let mut i: usize = 0;
        proof {
            lemma_filter_empty(deposits, is_processed);
            assert(deposits.take(0) =~= Seq::<DepositView>::empty());
        }
        while i < self.deposits.len()
            invariant
                i <= self.deposits@.len(),
                deposits == self.deposits(),
                is_processed == (|d: DepositView| d.processed),
                processed == deposits.take(i as int).filter(is_processed).len(),
                processed <= i,
                volume == if processed_volume(deposits.take(i as int)) > u64::MAX {
                    u64::MAX as int
                } else {
                    processed_volume(deposits.take(i as int))
                },
                processed_volume(deposits.take(i as int)) >= 0,
            decreases self.deposits@.len() - i,
        {
            proof {
                lemma_filter_step(deposits, is_processed, i as int);
                assert(deposits.take(i as int + 1).drop_last() =~= deposits.take(i as int));
                assert(deposits.take(i as int + 1).last() == deposits[i as int]);
            }
            if self.deposits[i].processed {
                processed += 1;
                volume = volume.saturating_add(self.deposits[i].amount);
            }
            i += 1;
        }
        let mut authorized: u64 = 0;
        let mut j: usize = 0;
        proof {
            lemma_take_all(deposits);
            lemma_filter_empty(withdrawals, is_authorized);
        }
        while j < self.withdrawals.len()
            invariant
                j <= self.withdrawals@.len(),
                withdrawals == self.withdrawals(),
                is_authorized == (|w: WithdrawalView| w.authorized),
                authorized == withdrawals.take(j as int).filter(is_authorized).len(),
                authorized <= j,
            decreases self.withdrawals@.len() - j,
        {
            proof {
                lemma_filter_step(withdrawals, is_authorized, j as int);
            }
            if self.withdrawals[j].authorized {
                authorized += 1;
            }
            j += 1;
        }
        proof {
            lemma_take_all(withdrawals);
        }
        Stats {
            total_deposits: processed,
            total_withdrawals: authorized,
            total_volume: volume,
            active_deposits: processed.wrapping_sub(authorized),
        }
    }
}

} // verus!
