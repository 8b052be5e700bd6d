use zvault::addr::get_vault_address;
use zvault::pay::{
    apply_signatures, build_vault_unauthorized_tx, combine_vault_utxos, pay_from_vault,
    plan_output, send_to_vault, sign_sighash, Output, PartialTx, PlannedOutput,
};
use zvault::wallet::{sk_to_pub, UTXO};
use zvault::ZcashError;

const HEIGHT: u32 = 2_000_000;

fn keypair(fill: u8) -> (Vec<u8>, Vec<u8>) {
    let sk = secp256k1::SecretKey::from_slice(&[fill; 32]).unwrap();
    let secp = secp256k1::Secp256k1::new();
    let pk = secp256k1::PublicKey::from_secret_key(&secp, &sk);
    (vec![fill; 32], pk.serialize().to_vec())
}

fn hex_of(b: &[u8]) -> String {
    let mut s = String::new();
    for x in b {
        s.push_str(&format!("{:02x}", x));
    }
    s
}

fn p2pkh_script_hex(pk: &[u8]) -> String {
    let sha = <sha2::Sha256 as sha2::Digest>::digest(pk);
    let pkh: [u8; 20] = <ripemd::Ripemd160 as ripemd::Digest>::digest(sha).into();
    let mut script = vec![0x76u8, 0xa9, 0x14];
    script.extend_from_slice(&pkh);
    script.extend_from_slice(&[0x88, 0xac]);
    hex_of(&script)
}

fn vault_coin(pk: &[u8], value: u64) -> UTXO {
    UTXO {
        txid: "ab".repeat(32),
        height: 1,
        vout: 0,
        script: p2pkh_script_hex(pk),
        value,
    }
}

#[test]
fn split_custody_round_trip() {
    let (sk, pk) = keypair(11);
    let (_, pk2) = keypair(12);
    let to = get_vault_address(true, pk2).unwrap();
    let utxos = vec![vault_coin(&pk, 1_000_000)];

    let ptx = pay_from_vault(true, HEIGHT, pk.clone(), to, 100_000, String::new(), utxos)
        .unwrap();
    assert_eq!(ptx.fee, 10_000);
    assert_eq!(ptx.outputs.len(), 2);
    assert_eq!(ptx.outputs[1].amount, 890_000);

    // the engine produces one digest per transparent input
    let digests = build_vault_unauthorized_tx(true, pk.clone(), &ptx, None).unwrap();
    assert_eq!(digests.hashes.len(), 1);
    assert_eq!(digests.hashes[0].len(), 32);

    // digests are reproducible from the stored seed
    let digests2 = build_vault_unauthorized_tx(true, pk.clone(), &ptx, None).unwrap();
    assert_eq!(digests.hashes, digests2.hashes);

    // the external signer signs each digest
    let mut sigs = Vec::new();
    for h in &digests.hashes {
        sigs.push(sign_sighash(sk.clone(), h).unwrap());
    }

    // recombination succeeds and yields a serialized transaction
    let tx = apply_signatures(true, pk.clone(), &ptx, None, &digests, &sigs).unwrap();
    assert!(!tx.data.is_empty());
    assert!(!tx.txid.is_empty());

    // every transparent input's signature verifies against the original
    // digest under the vault key
    let secp = secp256k1::Secp256k1::verification_only();
    let pubkey = secp256k1::PublicKey::from_slice(&pk).unwrap();
    for (h, s) in digests.hashes.iter().zip(&sigs) {
        let d: [u8; 32] = h.as_slice().try_into().unwrap();
        let msg = secp256k1::Message::from_digest(d);
        let sig = secp256k1::ecdsa::Signature::from_der(s).unwrap();
        assert!(secp.verify_ecdsa(&msg, &sig, &pubkey).is_ok());
    }
}

#[test]
fn recombination_rejects_wrong_signature() {
    let (sk, pk) = keypair(13);
    let (sk_other, _) = keypair(14);
    let (_, pk2) = keypair(15);
    let to = get_vault_address(true, pk2).unwrap();
    let utxos = vec![vault_coin(&pk, 1_000_000)];
    let ptx = pay_from_vault(true, HEIGHT, pk.clone(), to, 100_000, String::new(), utxos)
        .unwrap();
    let digests = build_vault_unauthorized_tx(true, pk.clone(), &ptx, None).unwrap();
    // signed with the wrong key
    let bad = vec![sign_sighash(sk_other, &digests.hashes[0]).unwrap()];
    assert!(apply_signatures(true, pk.clone(), &ptx, None, &digests, &bad).is_err());
    // count mismatch
    let good = vec![
        sign_sighash(sk.clone(), &digests.hashes[0]).unwrap(),
        sign_sighash(sk, &digests.hashes[0]).unwrap(),
    ];
    assert!(apply_signatures(true, pk, &ptx, None, &digests, &good).is_err());
}

#[test]
fn self_signed_payment_into_vault() {
    let (sk, pk) = keypair(21);
    let from = get_vault_address(true, pk.clone()).unwrap();
    let (_, vault_pk) = keypair(22);
    let utxos = vec![vault_coin(&pk, 1_000_000)];
    let tx = send_to_vault(
        true,
        HEIGHT,
        sk,
        from,
        vault_pk,
        100_000,
        String::new(),
        utxos,
        None,
    )
    .unwrap();
    assert!(!tx.data.is_empty());
}

#[test]
fn send_to_vault_rejects_long_memo() {
    let (sk, pk) = keypair(23);
    let from = get_vault_address(true, pk.clone()).unwrap();
    let (_, vault_pk) = keypair(24);
    let utxos = vec![vault_coin(&pk, 10_000_000)];
    let r = send_to_vault(
        true,
        HEIGHT,
        sk,
        from,
        vault_pk,
        100_000,
        "x".repeat(81),
        utxos,
        None,
    );
    assert!(matches!(r, Err(ZcashError::AssertError(_))));
}

#[test]
fn send_to_vault_rejects_insufficient_funds() {
    let (sk, pk) = keypair(25);
    let from = get_vault_address(true, pk.clone()).unwrap();
    let (_, vault_pk) = keypair(26);
    let utxos = vec![vault_coin(&pk, 50_000)];
    let r = send_to_vault(
        true,
        HEIGHT,
        sk,
        from,
        vault_pk,
        100_000,
        String::new(),
        utxos,
        None,
    );
    assert!(matches!(r, Err(ZcashError::NotEnoughFunds)));
}

#[test]
fn combine_refuses_coins_below_their_own_fee() {
    let (_, pk) = keypair(30);
    let utxos = vec![vault_coin(&pk, 4_000)];
    let r = combine_vault_utxos(true, HEIGHT, pk, utxos);
    assert!(matches!(r, Err(ZcashError::NotEnoughFunds)));
}

#[test]
fn combine_spends_everything_back_to_vault() {
    let (_, pk) = keypair(27);
    let utxos = vec![vault_coin(&pk, 600_000), vault_coin(&pk, 400_000)];
    let ptx = combine_vault_utxos(true, HEIGHT, pk.clone(), utxos).unwrap();
    assert_eq!(ptx.fee, 10_000);
    assert_eq!(ptx.outputs.len(), 1);
    assert_eq!(ptx.outputs[0].amount, 990_000);
    assert_eq!(ptx.outputs[0].address, get_vault_address(true, pk).unwrap());
    assert_eq!(ptx.tx_seed.len(), 32);
}

#[test]
fn plan_routes_by_best_receiver() {
    // a bare transparent recipient routes to the transparent pool
    let (_, pk) = keypair(28);
    let taddr = get_vault_address(true, pk).unwrap();
    let planned = plan_output(
        true,
        &Output { address: taddr, amount: 7, memo: "hi".to_owned() },
    )
    .unwrap();
    match planned {
        PlannedOutput::TransparentP2pkh(h, amount, memo) => {
            assert_eq!(h.len(), 20);
            assert_eq!(amount, 7);
            assert_eq!(memo, Some(b"hi".to_vec()));
        },
        _ => panic!("expected a transparent plan"),
    }

    // a first-generation shielded recipient routes to its pool with a
    // 512-byte padded memo
    let net = zcash_protocol::consensus::Network::MainNetwork;
    let xsk = sapling_crypto::zip32::ExtendedSpendingKey::master(&[7u8; 32]);
    let (_, addr) = xsk.default_address();
    let saddr = zcash_keys::address::Address::Sapling(addr).encode(&net);
    let planned = plan_output(
        true,
        &Output { address: saddr, amount: 9, memo: "note".to_owned() },
    )
    .unwrap();
    match planned {
        PlannedOutput::Sapling(b, amount, memo) => {
            assert_eq!(b.len(), 43);
            assert_eq!(amount, 9);
            assert_eq!(memo.len(), 512);
        },
        _ => panic!("expected a first-generation plan"),
    }

    // a unified recipient with a second-generation receiver prefers it
    let sk = orchard::keys::SpendingKey::from_bytes([9u8; 32]).unwrap();
    let fvk = orchard::keys::FullViewingKey::from(&sk);
    let oaddr = fvk.address_at(0u32, orchard::keys::Scope::External);
    let ua = zcash_keys::address::UnifiedAddress::from_receivers(Some(oaddr), Some(addr), None)
        .unwrap();
    let uas = zcash_keys::address::Address::Unified(ua).encode(&net);
    let planned = plan_output(
        true,
        &Output { address: uas, amount: 3, memo: String::new() },
    )
    .unwrap();
    assert!(matches!(planned, PlannedOutput::Orchard(_, 3, _)));
}

#[test]
fn build_unauthorized_includes_orchard_outputs() {
    // a plan paying a second-generation receiver still produces the
    // transparent input digests without any proving capability
    let (_, pk) = keypair(29);
    let sk_o = orchard::keys::SpendingKey::from_bytes([9u8; 32]).unwrap();
    let fvk = orchard::keys::FullViewingKey::from(&sk_o);
    let oaddr = fvk.address_at(0u32, orchard::keys::Scope::External);
    let ua = zcash_keys::address::UnifiedAddress::from_receivers(Some(oaddr), None, None)
        .unwrap();
    let net = zcash_protocol::consensus::Network::MainNetwork;
    let uas = zcash_keys::address::Address::Unified(ua).encode(&net);
    let utxos = vec![vault_coin(&pk, 1_000_000)];
    let ptx = pay_from_vault(true, HEIGHT, pk.clone(), uas, 100_000, String::new(), utxos)
        .unwrap();
    let digests = build_vault_unauthorized_tx(true, pk, &ptx, None).unwrap();
    assert_eq!(digests.hashes.len(), 1);
}

#[test]
fn plan_rejects_exchange_only_recipient() {
    let net = zcash_protocol::consensus::Network::MainNetwork;
    let tex = zcash_keys::address::Address::Tex([7u8; 20]).encode(&net);
    let r = plan_output(true, &Output { address: tex.clone(), amount: 1, memo: String::new() });
    assert!(matches!(r, Err(ZcashError::InvalidAddress(a)) if a == tex));
    let r2 = plan_output(
        true,
        &Output { address: "junk".to_owned(), amount: 1, memo: String::new() },
    );
    assert!(matches!(r2, Err(ZcashError::InvalidAddress(_))));
}

#[test]
fn sk_to_pub_round_trips_an_encoded_key() {
    let (sk, pk) = keypair(31);
    let mut payload = sk.clone();
    payload.push(0x01);
    let wif = base58check::ToBase58Check::to_base58check(payload.as_slice(), 0x80);
    let tk = sk_to_pub(true, wif).unwrap();
    assert_eq!(tk.sk, sk);
    assert_eq!(tk.pk, pk);
    assert_eq!(tk.addr, get_vault_address(true, pk).unwrap());
    assert!(sk_to_pub(true, "###".to_owned()).is_err());
}

#[test]
fn rpc_error_keeps_its_text() {
    let e = anyhow::Error::msg("node unreachable");
    let z = zvault::rpc::map_rpc_error(e);
    match z {
        ZcashError::RPC(m) => assert_eq!(m, "node unreachable"),
        _ => panic!("expected a transport error"),
    }
}

#[test]
fn network_selection_follows_configuration() {
    let cfg = zvault::config::Config {
        server: zvault::config::Server {
            host: String::new(),
            user: String::new(),
            password: String::new(),
        },
        mainnet: true,
        sapling_params_dir: String::new(),
    };
    assert!(matches!(cfg.network(), zvault::config::Network::Main));
    assert!(cfg.network().is_main());
}

#[test]
fn partial_tx_keeps_plan_fields() {
    let ptx = PartialTx {
        height: 5,
        inputs: vec![],
        outputs: vec![],
        fee: 0,
        tx_seed: vec![0; 32],
    };
    assert_eq!(ptx.height, 5);
}
