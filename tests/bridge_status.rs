use dashboard_backend::bridge::{
    withdrawal_requests, DepositInfo, DepositStatus, DepositToWithdrawal, ReimbursementInfo, ReimbursementStatus,
    WithdrawalInfo, WithdrawalStatus,
};

#[test]
fn deposit_reports() {
    let d = DepositInfo::from_status(DepositStatus::InProgress { deposit_request_txid: "aa".to_string() });
    assert_eq!((d.deposit_request_txid.as_str(), d.deposit_txid.clone(), d.status.as_str()), ("aa", None, "In progress"));
    let d = DepositInfo::from_status(DepositStatus::Failed {
        deposit_request_txid: "bb".to_string(),
        failure_reason: "timeout".to_string(),
    });
    assert_eq!((d.deposit_request_txid.as_str(), d.deposit_txid.clone(), d.status.as_str()), ("bb", None, "Failed"));
    let d = DepositInfo::from_status(DepositStatus::Complete {
        deposit_request_txid: "cc".to_string(),
        deposit_txid: "dd".to_string(),
    });
    assert_eq!(d.deposit_txid, Some("dd".to_string()));
    assert_eq!(d.status, "Complete");
}

#[test]
fn withdrawal_reports() {
    let w = WithdrawalInfo::from_rpc(&WithdrawalStatus::InProgress, "ee".to_string());
    assert_eq!((w.withdrawal_request_txid.as_str(), w.fulfillment_txid.clone(), w.status.as_str()), ("ee", None, "In progress"));
    let w = WithdrawalInfo::from_rpc(&WithdrawalStatus::Complete { fulfillment_txid: "ff".to_string() }, "ee".to_string());
    assert_eq!(w.fulfillment_txid, Some("ff".to_string()));
    assert_eq!(w.status, "Complete");
}

#[test]
fn reimbursement_reports() {
    let r = ReimbursementInfo::from_claim("c1".to_string(), &ReimbursementStatus::InProgress { challenge_step: "Claim".to_string() });
    assert_eq!((r.challenge_step.as_str(), r.payout_txid.clone(), r.status.as_str()), ("Claim", None, "In progress"));
    let r = ReimbursementInfo::from_claim("c1".to_string(), &ReimbursementStatus::Challenged { challenge_step: "Assert".to_string() });
    assert_eq!((r.challenge_step.as_str(), r.status.as_str()), ("Assert", "Challenged"));
    let r = ReimbursementInfo::from_claim("c1".to_string(), &ReimbursementStatus::Cancelled);
    assert_eq!((r.challenge_step.as_str(), r.payout_txid.clone(), r.status.as_str()), ("N/A", None, "Cancelled"));
    let r = ReimbursementInfo::from_claim("c1".to_string(), &ReimbursementStatus::Complete { payout_txid: "p".to_string() });
    assert_eq!((r.claim_txid.as_str(), r.challenge_step.as_str(), r.payout_txid.clone(), r.status.as_str()), ("c1", "N/A", Some("p".to_string()), "Complete"));
}

#[test]
fn only_deposits_with_requests_are_looked_up() {
    let deposits = vec![
        DepositToWithdrawal { deposit_outpoint: "o0".to_string(), withdrawal_request_txid: None },
        DepositToWithdrawal { deposit_outpoint: "o1".to_string(), withdrawal_request_txid: Some("w1".to_string()) },
        DepositToWithdrawal { deposit_outpoint: "o2".to_string(), withdrawal_request_txid: None },
        DepositToWithdrawal { deposit_outpoint: "o3".to_string(), withdrawal_request_txid: Some("w3".to_string()) },
    ];
    assert_eq!(withdrawal_requests(&deposits), vec![1, 3]);
    assert!(withdrawal_requests(&Vec::new()).is_empty());
}
