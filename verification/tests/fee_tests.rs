use zvault::fee::select_utxos;
use zvault::wallet::UTXO;
use zvault::ZcashError;

fn coin(value: u64) -> UTXO {
    UTXO {
        txid: "aa".repeat(32),
        height: 1,
        vout: 0,
        script: String::new(),
        value,
    }
}

#[test]
fn select_single_coin_covers_payment() {
    let utxos = vec![coin(1_000_000)];
    let (inputs, change, fee) = select_utxos(&utxos, 100_000, "").unwrap();
    assert_eq!(inputs.len(), 1);
    // one input, two outputs: fee = max(1, 2) * 5000
    assert_eq!(fee, 10_000);
    // selected value - amount - fee == change
    assert_eq!(change, 1_000_000 - 100_000 - 10_000);
}

#[test]
fn insufficient_funds_when_total_below_amount_plus_min_fee() {
    let utxos = vec![coin(50_000)];
    let r = select_utxos(&utxos, 45_001, "");
    assert!(matches!(r, Err(ZcashError::NotEnoughFunds)));
}

#[test]
fn exact_cover_succeeds_with_zero_change() {
    let utxos = vec![coin(110_000)];
    let (inputs, change, fee) = select_utxos(&utxos, 100_000, "").unwrap();
    assert_eq!(inputs.len(), 1);
    assert_eq!(fee, 10_000);
    assert_eq!(change, 0);
}

#[test]
fn fee_rises_with_more_inputs() {
    let utxos = vec![coin(40_000), coin(40_000), coin(40_000)];
    let (inputs, change, fee) = select_utxos(&utxos, 100_000, "").unwrap();
    assert_eq!(inputs.len(), 3);
    // three inputs, two outputs: fee = max(3, 2) * 5000
    assert_eq!(fee, 15_000);
    assert_eq!(change, 120_000 - 100_000 - 15_000);
}

#[test]
fn memo_adds_data_outputs_and_fee() {
    let memo = "m".repeat(80);
    let utxos = vec![coin(1_000_000)];
    let (inputs, change, fee) = select_utxos(&utxos, 100_000, &memo).unwrap();
    assert_eq!(inputs.len(), 1);
    // outputs: 2 + ceil((80 + 2) / 34) = 5, fee = max(1, 5) * 5000
    assert_eq!(fee, 25_000);
    assert_eq!(change, 1_000_000 - 100_000 - 25_000);
}

#[test]
fn selection_stops_at_first_covering_prefix() {
    let utxos = vec![coin(200_000), coin(500_000)];
    let (inputs, _, fee) = select_utxos(&utxos, 100_000, "").unwrap();
    assert_eq!(inputs.len(), 1);
    assert_eq!(inputs[0].value, 200_000);
    assert_eq!(fee, 10_000);
}

#[test]
fn empty_coin_list_is_insufficient() {
    let utxos: Vec<UTXO> = vec![];
    let r = select_utxos(&utxos, 0, "");
    assert!(matches!(r, Err(ZcashError::NotEnoughFunds)));
}

#[test]
fn memo_of_81_bytes_rejected_and_80_accepted() {
    let ok = zvault::pay::validate_transparent_memo(&"x".repeat(80));
    assert!(ok.is_ok());
    let bad = zvault::pay::validate_transparent_memo(&"x".repeat(81));
    assert!(matches!(bad, Err(ZcashError::AssertError(_))));
}
