//! Bridge deposits, withdrawals and reimbursements as the dashboard reports
//! them. Transaction ids are carried as their hex text.
use vstd::prelude::*;

verus! {

/// Where a deposit stands.
#[derive(Debug)]
pub enum DepositStatus {
    InProgress { deposit_request_txid: String },
    Failed { deposit_request_txid: String, failure_reason: String },
    Complete { deposit_request_txid: String, deposit_txid: String },
}

/// Where a withdrawal stands.
#[derive(Debug)]
pub enum WithdrawalStatus {
    InProgress,
    Complete { fulfillment_txid: String },
}

/// Where an operator's reimbursement claim stands; a challenge step is
/// carried as its display text.
#[derive(Debug)]
pub enum ReimbursementStatus {
    InProgress { challenge_step: String },
    Challenged { challenge_step: String },
    Cancelled,
    Complete { payout_txid: String },
}

#[derive(Debug)]
pub struct DepositInfo {
    pub deposit_request_txid: String,
    pub deposit_txid: Option<String>,
    pub status: String,
}

#[derive(Debug)]
pub struct WithdrawalInfo {
    pub withdrawal_request_txid: String,
    pub fulfillment_txid: Option<String>,
    pub status: String,
}

#[derive(Debug)]
pub struct ReimbursementInfo {
    pub claim_txid: String,
    pub challenge_step: String,
    pub payout_txid: Option<String>,
    pub status: String,
}

pub open spec fn opt_view(t: Option<String>) -> Option<Seq<char>> {
    match t {
        Some(s) => Some(s@),
        None => None,
    }
}

impl DepositInfo {
    /// The report of a deposit: its request id, its deposit transaction
    /// once complete, and "In progress", "Failed" or "Complete".
    pub fn from_status(status: DepositStatus) -> (r: DepositInfo)
        ensures
            match status {
                DepositStatus::InProgress { deposit_request_txid } => r.deposit_request_txid@
                    == deposit_request_txid@ && r.deposit_txid is None && r.status@ == "In progress"@,
                DepositStatus::Failed { deposit_request_txid, .. } => r.deposit_request_txid@
                    == deposit_request_txid@ && r.deposit_txid is None && r.status@ == "Failed"@,
                DepositStatus::Complete { deposit_request_txid, deposit_txid } => r.deposit_request_txid@
                    == deposit_request_txid@ && opt_view(r.deposit_txid) == Some(deposit_txid@)
                    && r.status@ == "Complete"@,
            },
    {
        match status {
            DepositStatus::InProgress { deposit_request_txid } => DepositInfo {
                deposit_request_txid,
                deposit_txid: None,
                status: String::from_str("In progress"),
            },
            DepositStatus::Failed { deposit_request_txid, failure_reason: _ } => DepositInfo {
                deposit_request_txid,
                deposit_txid: None,
                status: String::from_str("Failed"),
            },
            DepositStatus::Complete { deposit_request_txid, deposit_txid } => DepositInfo {
                deposit_request_txid,
                deposit_txid: Some(deposit_txid),
                status: String::from_str("Complete"),
            },
        }
    }
}

impl WithdrawalInfo {
    /// The report of the withdrawal requested by `withdrawal_request_txid`.
    pub fn from_rpc(status: &WithdrawalStatus, withdrawal_request_txid: String) -> (r: WithdrawalInfo)
        ensures
            r.withdrawal_request_txid@ == withdrawal_request_txid@,
            match status {
                WithdrawalStatus::InProgress => r.fulfillment_txid is None && r.status@ == "In progress"@,
                WithdrawalStatus::Complete { fulfillment_txid } => opt_view(r.fulfillment_txid) == Some(
                    fulfillment_txid@,
                ) && r.status@ == "Complete"@,
            },
    {
        match status {
            WithdrawalStatus::InProgress => WithdrawalInfo {
                withdrawal_request_txid,
                fulfillment_txid: None,
                status: String::from_str("In progress"),
            },
            WithdrawalStatus::Complete { fulfillment_txid } => WithdrawalInfo {
                withdrawal_request_txid,
                fulfillment_txid: Some(fulfillment_txid.clone()),
                status: String::from_str("Complete"),
            },
        }
    }
}

impl ReimbursementInfo {
    /// The report of the claim `claim_txid`: the challenge step while it
    /// runs ("N/A" once it is over), the payout once complete.
    pub fn from_claim(claim_txid: String, status: &ReimbursementStatus) -> (r: ReimbursementInfo)
        ensures
            r.claim_txid@ == claim_txid@,
            match status {
                ReimbursementStatus::InProgress { challenge_step } => r.challenge_step@ == challenge_step@
                    && r.payout_txid is None && r.status@ == "In progress"@,
                ReimbursementStatus::Challenged { challenge_step } => r.challenge_step@ == challenge_step@
                    && r.payout_txid is None && r.status@ == "Challenged"@,
                ReimbursementStatus::Cancelled => r.challenge_step@ == "N/A"@ && r.payout_txid is None
                    && r.status@ == "Cancelled"@,
                ReimbursementStatus::Complete { payout_txid } => r.challenge_step@ == "N/A"@ && opt_view(
                    r.payout_txid,
                ) == Some(payout_txid@) && r.status@ == "Complete"@,
            },
    {
        match status {
            ReimbursementStatus::InProgress { challenge_step } => ReimbursementInfo {
                claim_txid,
                challenge_step: challenge_step.clone(),
                payout_txid: None,
                status: String::from_str("In progress"),
            },
            ReimbursementStatus::Challenged { challenge_step } => ReimbursementInfo {
                claim_txid,
                challenge_step: challenge_step.clone(),
                payout_txid: None,
                status: String::from_str("Challenged"),
            },
            ReimbursementStatus::Cancelled => ReimbursementInfo {
                claim_txid,
                challenge_step: String::from_str("N/A"),
                payout_txid: None,
                status: String::from_str("Cancelled"),
            },
            ReimbursementStatus::Complete { payout_txid } => ReimbursementInfo {
                claim_txid,
                challenge_step: String::from_str("N/A"),
                payout_txid: Some(payout_txid.clone()),
                status: String::from_str("Complete"),
            },
        }
    }
}

/// A deposit's outpoint and, if one was made, its withdrawal request.
#[derive(Debug)]
pub struct DepositToWithdrawal {
    pub deposit_outpoint: String,
    pub withdrawal_request_txid: Option<String>,
}

/// The positions of the deposits that have a withdrawal request, in order:
/// those are the withdrawals to look up.
pub fn withdrawal_requests(deposits: &Vec<DepositToWithdrawal>) -> (r: Vec<usize>)
    ensures
        forall|p: int| 0 <= p < r@.len() ==> #[trigger] r@[p] < deposits@.len() && deposits@[r@[p] as int].withdrawal_request_txid is Some,
        forall|p: int, q: int| 0 <= p < q < r@.len() ==> #[trigger] r@[p] < #[trigger] r@[q],
        forall|i: int| 0 <= i < deposits@.len() && (#[trigger] deposits@[i]).withdrawal_request_txid is Some ==> r@.contains(i as usize),
{
    let mut r: Vec<usize> = Vec::new();
    let mut i: usize = 0;
    while i < deposits.len()
        invariant
            i <= deposits@.len(),
            forall|p: int| 0 <= p < r@.len() ==> #[trigger] r@[p] < i && deposits@[r@[p] as int].withdrawal_request_txid is Some,
            forall|p: int, q: int| 0 <= p < q < r@.len() ==> #[trigger] r@[p] < #[trigger] r@[q],
            forall|k: int| 0 <= k < i && (#[trigger] deposits@[k]).withdrawal_request_txid is Some ==> r@.contains(k as usize),
        decreases deposits.len() - i,
    {
        if deposits[i].withdrawal_request_txid.is_some() {
            let ghost before = r@;
            r.push(i);
            assert forall|k: int| 0 <= k < i + 1 && (#[trigger] deposits@[k]).withdrawal_request_txid is Some implies r@.contains(k as usize) by {
                if k < i {
                    let t = choose|t: int| 0 <= t < before.len() && before[t] == k as usize;
                    assert(r@[t] == k as usize);
                } else {
                    assert(r@[before.len() as int] == i);
                }
            }
        }
        i += 1;
    }
    r
}

} // verus!
