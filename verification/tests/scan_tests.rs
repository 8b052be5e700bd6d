use zvault::pay::Output;
use zvault::scan::{
    check_delta_start, dedup_txids, pick_resolved_output, tx_touches_address, Direction, Orchard,
    RawVaultTx, ScriptPubKey, TOut, TRawOut, VaultTx, VaultTxDecrypted, VaultTxDetails,
};
use zvault::ZcashError;

const VAULT: &str = "t1VaultAddress";

fn tout(address: &str, value: u64) -> TOut {
    TOut { address: address.to_owned(), value, memo: None }
}

fn out(address: &str, amount: u64) -> Output {
    Output { address: address.to_owned(), amount, memo: String::new() }
}

#[test]
fn outgoing_single_recipient() {
    // one vault input of value 500_000, one external output of 490_000
    let txd = VaultTxDecrypted {
        txid: "tx1".to_owned(),
        ptouts: vec![tout(VAULT, 500_000)],
        outputs: vec![out("t1Counterparty", 490_000)],
    };
    let tx = VaultTx::from_decrypted(10, &txd, VAULT).unwrap();
    assert!(matches!(tx.direction, Direction::Outgoing));
    assert_eq!(tx.counterparty.address, "t1Counterparty");
    assert_eq!(tx.counterparty.amount, 490_000);
    assert_eq!(tx.height, 10);
    assert_eq!(tx.txid, "tx1");
}

#[test]
fn outgoing_ignores_change_back_to_vault() {
    let txd = VaultTxDecrypted {
        txid: "tx2".to_owned(),
        ptouts: vec![tout(VAULT, 500_000)],
        outputs: vec![out("t1Counterparty", 490_000), out(VAULT, 5_000)],
    };
    let tx = VaultTx::from_decrypted(11, &txd, VAULT).unwrap();
    assert!(matches!(tx.direction, Direction::Outgoing));
    assert_eq!(tx.counterparty.address, "t1Counterparty");
}

#[test]
fn outgoing_two_recipients_rejected() {
    let txd = VaultTxDecrypted {
        txid: "tx3".to_owned(),
        ptouts: vec![tout(VAULT, 500_000)],
        outputs: vec![out("t1A", 100), out("t1B", 200)],
    };
    let r = VaultTx::from_decrypted(12, &txd, VAULT);
    assert!(matches!(r, Err(ZcashError::AssertError(_))));
}

#[test]
fn incoming_aggregates_vault_outputs() {
    // zero vault inputs and two vault outputs of 100 and 200
    let txd = VaultTxDecrypted {
        txid: "tx4".to_owned(),
        ptouts: vec![tout("t1Sender", 400)],
        outputs: vec![out(VAULT, 100), out(VAULT, 200), out("t1Other", 7)],
    };
    let tx = VaultTx::from_decrypted(13, &txd, VAULT).unwrap();
    assert!(matches!(tx.direction, Direction::Incoming));
    assert_eq!(tx.counterparty.amount, 300);
    assert_eq!(tx.counterparty.address, "t1Sender");
}

#[test]
fn incoming_from_shielded_sources_has_unknown_counterparty() {
    let txd = VaultTxDecrypted {
        txid: "tx5".to_owned(),
        ptouts: vec![],
        outputs: vec![out(VAULT, 100)],
    };
    let tx = VaultTx::from_decrypted(14, &txd, VAULT).unwrap();
    assert!(matches!(tx.direction, Direction::Incoming));
    assert_eq!(tx.counterparty.address, "");
    assert_eq!(tx.counterparty.amount, 100);
}

#[test]
fn incoming_without_vault_output_rejected() {
    let txd = VaultTxDecrypted {
        txid: "tx6".to_owned(),
        ptouts: vec![tout("t1Sender", 400)],
        outputs: vec![out("t1Other", 7)],
    };
    let r = VaultTx::from_decrypted(15, &txd, VAULT);
    assert!(matches!(r, Err(ZcashError::AssertError(_))));
}

#[test]
fn reorg_detected_on_start_hash_mismatch() {
    let r = check_delta_start("0a0b", "0a0c");
    assert!(matches!(r, Err(ZcashError::Reorg)));
    assert!(check_delta_start("0a0b", "0a0b").is_ok());
}

#[test]
fn retryable_errors_are_transient_ones() {
    assert!(ZcashError::Reorg.is_retryable());
    assert!(ZcashError::RPC("down".to_owned()).is_retryable());
    assert!(!ZcashError::NotEnoughFunds.is_retryable());
    assert!(!ZcashError::InvalidVaultPubkey.is_retryable());
}

#[test]
fn dedup_keeps_first_occurrences() {
    let txids = vec!["a".to_owned(), "b".to_owned(), "a".to_owned(), "c".to_owned()];
    let d = dedup_txids(&txids);
    assert_eq!(d, vec!["a".to_owned(), "b".to_owned(), "c".to_owned()]);
}

#[test]
fn prefilter_finds_vault_address() {
    let touts = vec![tout("t1Other", 1), tout(VAULT, 2)];
    assert!(tx_touches_address(&touts, VAULT));
    assert!(!tx_touches_address(&touts, "t1Absent"));
}

fn raw_tx(touts: Vec<TRawOut>) -> RawVaultTx {
    RawVaultTx {
        txid: "raw".to_owned(),
        tins: vec![],
        touts,
        souts: vec![],
        orchard: Orchard { actions: vec![] },
    }
}

fn raw_pkh(address: &str, value: u64) -> TRawOut {
    TRawOut {
        vout: 0,
        script: ScriptPubKey {
            addresses: Some(vec![address.to_owned()]),
            script_asm: String::new(),
            script_type: "pubkeyhash".to_owned(),
        },
        value,
    }
}

#[test]
fn try_from_interprets_value_output() {
    let t = TOut::try_from(&raw_pkh("t1Someone", 42)).unwrap();
    assert_eq!(t.address, "t1Someone");
    assert_eq!(t.value, 42);
    assert!(t.memo.is_none());
}

#[test]
fn try_from_interprets_data_output_memo() {
    // "hello" in hexadecimal after the script marker
    let raw = TRawOut {
        vout: 1,
        script: ScriptPubKey {
            addresses: None,
            script_asm: "OP_RETURN 68656c6c6f".to_owned(),
            script_type: "nulldata".to_owned(),
        },
        value: 0,
    };
    let t = TOut::try_from(&raw).unwrap();
    assert_eq!(t.address, "");
    assert_eq!(t.value, 0);
    assert_eq!(t.memo, Some("hello".to_owned()));
}

#[test]
fn try_from_rejects_unknown_script_type() {
    let raw = TRawOut {
        vout: 0,
        script: ScriptPubKey {
            addresses: None,
            script_asm: String::new(),
            script_type: "multisig".to_owned(),
        },
        value: 5,
    };
    assert!(TOut::try_from(&raw).is_err());
}

#[test]
fn from_raw_keeps_interpretable_outputs() {
    let details = VaultTxDetails::from_raw(raw_tx(vec![
        raw_pkh("t1A", 1),
        TRawOut {
            vout: 1,
            script: ScriptPubKey {
                addresses: None,
                script_asm: String::new(),
                script_type: "multisig".to_owned(),
            },
            value: 5,
        },
        raw_pkh("t1B", 2),
    ]));
    assert_eq!(details.touts.len(), 2);
    assert_eq!(details.touts[0].address, "t1A");
    assert_eq!(details.touts[1].address, "t1B");
    assert!(details.ptouts.is_empty());
}

#[test]
fn pick_resolved_output_reads_referenced_position() {
    let funding = raw_tx(vec![raw_pkh("t1A", 1), raw_pkh("t1B", 2)]);
    let t = pick_resolved_output(&funding, 1).unwrap();
    assert_eq!(t.address, "t1B");
    assert!(pick_resolved_output(&funding, 2).is_err());
}

#[test]
fn decrypt_propagates_single_transparent_memo() {
    let details = VaultTxDetails {
        txid: "dec".to_owned(),
        tins: vec![],
        ptouts: vec![],
        touts: vec![
            tout("t1A", 100),
            TOut { address: String::new(), value: 0, memo: Some("note".to_owned()) },
        ],
        souts: vec![],
        actions: vec![],
    };
    let d = details.decrypt(true, [0u8; 32]).unwrap();
    assert_eq!(d.outputs.len(), 2);
    assert_eq!(d.outputs[0].address, "t1A");
    assert_eq!(d.outputs[0].amount, 100);
    assert_eq!(d.outputs[0].memo, "note");
    assert_eq!(d.outputs[1].memo, "note");
}

#[test]
fn decrypt_rejects_malformed_shielded_fields() {
    let details = VaultTxDetails {
        txid: "bad".to_owned(),
        tins: vec![],
        ptouts: vec![],
        touts: vec![],
        souts: vec![zvault::scan::SOut {
            cv: "zz".to_owned(),
            cmu: "00".to_owned(),
            epk: "00".to_owned(),
            enc: "00".to_owned(),
            out: "00".to_owned(),
        }],
        actions: vec![],
    };
    assert!(details.decrypt(true, [0u8; 32]).is_err());
}
