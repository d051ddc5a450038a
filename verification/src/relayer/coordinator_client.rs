//! What the relayer exchanges with the coordinator, and where.

use vstd::prelude::*;
use vstd::string::StringExecFns;

verus! {

#[derive(Debug)]
pub struct DepositNotification {
    pub deposit_id: String,
    pub source_chain_id: u64,
    pub target_chain_id: u64,
    pub sender: String,
    pub token: String,
    pub amount: u64,
    pub recipient: Vec<u8>,
    pub zcash_address: Vec<u8>,
    pub timestamp: u64,
}

#[derive(Debug)]
pub struct AuthorizedWithdrawal {
    pub withdrawal_id: String,
    pub target_chain_id: u64,
    pub recipient: String,
    pub token: String,
    pub amount: u64,
    pub nullifier: Vec<u8>,
    pub authorization_signature: Vec<u8>,
    pub timestamp: u64,
}

/// The coordinator's endpoints under a base URL.
pub struct CoordinatorEndpoints {
    base_url: String,
}

impl CoordinatorEndpoints {
    pub closed spec fn base(&self) -> Seq<char> {
        self.base_url@
    }

    pub fn new(base_url: &str) -> (endpoints: CoordinatorEndpoints)
        ensures
            endpoints.base() == base_url@,
    {
        CoordinatorEndpoints { base_url: base_url.to_owned() }
    }

    fn under(&self, path: &str) -> (url: String)
        ensures
            url@ == self.base() + path@,
    {
        self.base_url.clone().concat(path)
    }

    /// Where deposits are notified.
    pub fn notify_deposit_url(&self) -> (url: String)
        ensures
            url@ == self.base() + "/deposits/notify"@,
    {
        self.under("/deposits/notify")
    }

    /// Where withdrawals are notified.
    pub fn notify_withdrawal_url(&self) -> (url: String)
        ensures
            url@ == self.base() + "/withdrawals/notify"@,
    {
        self.under("/withdrawals/notify")
    }

    /// Where the authorized withdrawals are listed.
    pub fn authorized_withdrawals_url(&self) -> (url: String)
        ensures
            url@ == self.base() + "/withdrawals/authorized"@,
    {
        self.under("/withdrawals/authorized")
    }

    /// Where the status of a deposit is found.
    pub fn deposit_status_url(&self, deposit_id: &str) -> (url: String)
        ensures
            url@ == self.base() + "/deposits/"@ + deposit_id@ + "/status"@,
    {
        self.under("/deposits/").concat(deposit_id).concat("/status")
    }

    /// Where liquidity is checked.
    pub fn check_liquidity_url(&self) -> (url: String)
        ensures
            url@ == self.base() + "/liquidity/check"@,
    {
        self.under("/liquidity/check")
    }
}

} // verus!
