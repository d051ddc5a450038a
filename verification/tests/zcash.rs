use zerobridge::coordinator::zcash_client::{
    confirmation_poll_allowed, get_merkle_path, get_merkle_root, is_confirmed, is_synced, memo_hex,
    operation_poll_allowed, operation_step, split_zatoshi, verify_merkle_root, BlockchainInfo, OperationError,
    OperationStatus, OperationStep, TransactionInfo,
};
use zerobridge::ratio::Ratio;

fn info(progress: Ratio, hash: &str) -> BlockchainInfo {
    BlockchainInfo {
        chain: "test".to_string(),
        blocks: 10,
        bestblockhash: hash.to_string(),
        verificationprogress: progress,
        chainwork: String::new(),
    }
}

fn status(status: Option<&str>, txid: Option<&str>, error: Option<&str>) -> OperationStatus {
    OperationStatus {
        status: status.map(|s| s.to_string()),
        txid: txid.map(|s| s.to_string()),
        error_message: error.map(|s| s.to_string()),
    }
}

#[test]
fn sync_threshold() {
    assert!(is_synced(&info(Ratio::new(9999, 10000), "")));
    assert!(is_synced(&info(Ratio::new(1, 1), "")));
    assert!(!is_synced(&info(Ratio::new(9998, 10000), "")));
    assert!(!is_synced(&info(Ratio::new(999_899, 1_000_000), "")));
    assert!(!is_synced(&info(Ratio::new(1, 0), "")));
}

#[test]
fn merkle_roots() {
    assert!(verify_merkle_root(&[1u8; 32]));
    let mut last = [0u8; 32];
    last[31] = 1;
    assert!(verify_merkle_root(&last));
    assert!(!verify_merkle_root(&[0u8; 32]));
    assert!(!verify_merkle_root(&[1u8; 31]));
    assert!(!verify_merkle_root(&[1u8; 33]));
    assert!(!verify_merkle_root(&[]));

    assert_eq!(get_merkle_root(&info(Ratio::new(1, 1), "00ffA1")), Some(vec![0x00, 0xff, 0xa1]));
    assert_eq!(get_merkle_root(&info(Ratio::new(1, 1), "")), Some(vec![]));
    assert_eq!(get_merkle_root(&info(Ratio::new(1, 1), "abc")), None);
    assert_eq!(get_merkle_root(&info(Ratio::new(1, 1), "zz")), None);

    assert_eq!(get_merkle_path(&[9, 9]), vec![vec![0u8; 32], vec![1u8; 32], vec![2u8; 32]]);
}

#[test]
fn operations() {
    match operation_step(&status(Some("success"), Some("tx1"), None)) {
        OperationStep::Done(txid) => assert_eq!(txid, "tx1"),
        other => panic!("unexpected step {:?}", other),
    }
    assert!(matches!(
        operation_step(&status(Some("success"), None, None)),
        OperationStep::Fail(OperationError::NoTxid)
    ));
    match operation_step(&status(Some("failed"), None, Some("no funds"))) {
        OperationStep::Fail(OperationError::Failed(message)) => assert_eq!(message, "no funds"),
        other => panic!("unexpected step {:?}", other),
    }
    match operation_step(&status(Some("failed"), None, None)) {
        OperationStep::Fail(OperationError::Failed(message)) => assert_eq!(message, "Unknown error"),
        other => panic!("unexpected step {:?}", other),
    }
    assert!(matches!(operation_step(&status(Some("executing"), None, None)), OperationStep::Wait));
    assert!(matches!(operation_step(&status(Some("queued"), None, None)), OperationStep::Wait));
    match operation_step(&status(Some("paused"), None, None)) {
        OperationStep::Fail(OperationError::UnknownStatus(given)) => assert_eq!(given, "paused"),
        other => panic!("unexpected step {:?}", other),
    }
    assert!(matches!(operation_step(&status(None, Some("tx"), None)), OperationStep::Again));

    assert!(operation_poll_allowed(0) && operation_poll_allowed(59));
    assert!(!operation_poll_allowed(60));
    assert!(confirmation_poll_allowed(119));
    assert!(!confirmation_poll_allowed(120));
}

#[test]
fn confirmations_and_amounts() {
    let tx = TransactionInfo { txid: "t".to_string(), confirmations: 6, blockhash: None, blockindex: None };
    assert!(is_confirmed(&tx, 6));
    assert!(is_confirmed(&tx, 0));
    assert!(!is_confirmed(&tx, 7));

    assert_eq!(split_zatoshi(0), (0, 0));
    assert_eq!(split_zatoshi(99_999_999), (0, 99_999_999));
    assert_eq!(split_zatoshi(150_000_000), (1, 50_000_000));
    assert_eq!(split_zatoshi(u64::MAX), (184_467_440_737, 9_551_615));
    assert_eq!(memo_hex(&[0xde, 0xad, 0x01]), "dead01");
    assert_eq!(memo_hex(&[]), "");
}
