use zvault::addr::{
    best_recipient_of_ua, extract_receivers, get_ovk, get_vault_address, make_ua,
    match_with_blockchain_receiver, receiver_eq, reencode_orchard, reencode_sapling,
    reencode_transparent, validate_address, Receiver,
};
use zvault::ZcashError;

fn test_pubkey(fill: u8) -> Vec<u8> {
    let sk = secp256k1::SecretKey::from_slice(&[fill; 32]).unwrap();
    let secp = secp256k1::Secp256k1::new();
    secp256k1::PublicKey::from_secret_key(&secp, &sk).serialize().to_vec()
}

fn sapling_raw() -> Vec<u8> {
    let xsk = sapling_crypto::zip32::ExtendedSpendingKey::master(&[7u8; 32]);
    let (_, addr) = xsk.default_address();
    addr.to_bytes().to_vec()
}

fn orchard_raw() -> Vec<u8> {
    let sk = orchard::keys::SpendingKey::from_bytes([9u8; 32]).unwrap();
    let fvk = orchard::keys::FullViewingKey::from(&sk);
    fvk.address_at(0u32, orchard::keys::Scope::External).to_raw_address_bytes().to_vec()
}

#[test]
fn vault_address_matches_pkh_encoding() {
    let pk = test_pubkey(1);
    let addr = get_vault_address(true, pk.clone()).unwrap();
    // rebuild the expected encoding directly from the codec
    let sha = <sha2::Sha256 as sha2::Digest>::digest(&pk);
    let pkh: [u8; 20] = <ripemd::Ripemd160 as ripemd::Digest>::digest(sha).into();
    let expect = zcash_keys::address::Address::Transparent(
        zcash_transparent::address::TransparentAddress::PublicKeyHash(pkh),
    )
    .encode(&zcash_protocol::consensus::Network::MainNetwork);
    assert_eq!(addr, expect);
    assert!(validate_address(true, addr).unwrap());
}

#[test]
fn invalid_pubkey_rejected() {
    let r = get_vault_address(true, vec![0u8; 33]);
    assert!(matches!(r, Err(ZcashError::InvalidVaultPubkey)));
}

#[test]
fn ovk_matches_keyed_hash_and_is_deterministic() {
    let pk = test_pubkey(2);
    let ovk1 = get_ovk(pk.clone()).unwrap();
    let ovk2 = get_ovk(pk.clone()).unwrap();
    assert_eq!(ovk1, ovk2);
    assert_eq!(ovk1.len(), 32);
    let expect = blake2b_simd::Params::new()
        .hash_length(32)
        .personal(b"Zcash_Maya_OVK__")
        .hash(&pk)
        .as_bytes()
        .to_vec();
    assert_eq!(ovk1, expect);
}

#[test]
fn validate_rejects_garbage() {
    assert!(!validate_address(true, "notanaddress".to_owned()).unwrap());
}

#[test]
fn transparent_round_trip() {
    let pkh = vec![5u8; 20];
    let r = reencode_transparent(true, &pkh).unwrap();
    assert!(receiver_eq(&r, &Receiver::P2pkh(pkh)));
}

#[test]
fn sapling_round_trip() {
    let raw = sapling_raw();
    let r = reencode_sapling(true, &raw).unwrap();
    assert!(receiver_eq(&r, &Receiver::Sapling(raw)));
}

#[test]
fn orchard_round_trip() {
    let raw = orchard_raw();
    let r = reencode_orchard(true, &raw).unwrap();
    assert!(receiver_eq(&r, &Receiver::Orchard(raw)));
}

fn build_test_ua() -> (String, String, String, String) {
    // a transparent, a first-generation and a second-generation receiver,
    // each also encoded standalone
    let pk = test_pubkey(3);
    let taddr = get_vault_address(true, pk).unwrap();
    let net = zcash_protocol::consensus::Network::MainNetwork;
    let saddr = {
        let xsk = sapling_crypto::zip32::ExtendedSpendingKey::master(&[7u8; 32]);
        let (_, addr) = xsk.default_address();
        zcash_keys::address::Address::Sapling(addr).encode(&net)
    };
    let oua = {
        let sk = orchard::keys::SpendingKey::from_bytes([9u8; 32]).unwrap();
        let fvk = orchard::keys::FullViewingKey::from(&sk);
        let addr = fvk.address_at(0u32, orchard::keys::Scope::External);
        let ua = zcash_keys::address::UnifiedAddress::from_receivers(Some(addr), None, None)
            .unwrap();
        zcash_keys::address::Address::Unified(ua).encode(&net)
    };
    let ua = make_ua(true, Some(taddr.clone()), Some(saddr.clone()), Some(oua.clone())).unwrap();
    (ua, taddr, saddr, oua)
}

#[test]
fn unified_address_holds_exactly_its_sub_receivers() {
    let (ua, taddr, saddr, oua) = build_test_ua();
    let receivers = extract_receivers(true, &ua).unwrap();
    // one receiver per given sub-address, nothing else
    assert_eq!(receivers.len(), 3);
    for sub in [&taddr, &saddr] {
        let single = extract_receivers(true, sub).unwrap();
        assert_eq!(single.len(), 1);
        assert!(receivers.iter().any(|r| receiver_eq(r, &single[0])));
    }
    let orchard_items = extract_receivers(true, &oua).unwrap();
    assert!(orchard_items.iter().all(|o| receivers.iter().any(|r| receiver_eq(r, o))));
}

#[test]
fn unified_address_carries_a_script_hash_receiver() {
    let net = zcash_protocol::consensus::Network::MainNetwork;
    let sh = zcash_keys::address::Address::Transparent(
        zcash_transparent::address::TransparentAddress::ScriptHash([7u8; 20]),
    )
    .encode(&net);
    let saddr = {
        let xsk = sapling_crypto::zip32::ExtendedSpendingKey::master(&[7u8; 32]);
        let (_, addr) = xsk.default_address();
        zcash_keys::address::Address::Sapling(addr).encode(&net)
    };
    let ua = make_ua(true, Some(sh.clone()), Some(saddr), None).unwrap();
    let receivers = extract_receivers(true, &ua).unwrap();
    assert_eq!(receivers.len(), 2);
    let single = extract_receivers(true, &sh).unwrap();
    assert!(receivers.iter().any(|r| receiver_eq(r, &single[0])));
}

#[test]
fn blockchain_receiver_matches_its_unified_address() {
    let (ua, taddr, saddr, _) = build_test_ua();
    assert!(match_with_blockchain_receiver(true, ua.clone(), saddr).unwrap());
    assert!(match_with_blockchain_receiver(true, ua.clone(), taddr).unwrap());
    // an unrelated receiver does not match
    let other = get_vault_address(true, test_pubkey(4)).unwrap();
    assert!(!match_with_blockchain_receiver(true, ua, other).unwrap());
}

#[test]
fn blockchain_receiver_errors_keep_their_causes() {
    let (ua, taddr, _, _) = build_test_ua();
    // an undecodable claimed address
    let r = match_with_blockchain_receiver(true, "junk".to_owned(), taddr.clone());
    assert!(matches!(r, Err(ZcashError::InvalidAddress(a)) if a == "junk"));
    // an undecodable observed receiver
    let r = match_with_blockchain_receiver(true, taddr.clone(), "junk".to_owned());
    assert!(matches!(r, Err(ZcashError::InvalidAddress(a)) if a == "junk"));
    // an observed receiver with more than one receiver
    let r = match_with_blockchain_receiver(true, taddr, ua);
    assert!(matches!(r, Err(ZcashError::AssertError(_))));
}

#[test]
fn best_recipient_prefers_strongest_receiver() {
    let (ua, _, saddr, oua) = build_test_ua();
    // with a second-generation receiver present, it wins
    let best = best_recipient_of_ua(true, ua).unwrap();
    assert_eq!(best, oua);
    // without one, the first-generation receiver wins
    let pk = test_pubkey(3);
    let taddr = get_vault_address(true, pk).unwrap();
    let ua2 = make_ua(true, Some(taddr), Some(saddr.clone()), None).unwrap();
    let best2 = best_recipient_of_ua(true, ua2).unwrap();
    assert_eq!(best2, saddr);
}

#[test]
fn best_recipient_rejects_non_unified() {
    let pk = test_pubkey(5);
    let taddr = get_vault_address(true, pk).unwrap();
    let r = best_recipient_of_ua(true, taddr);
    assert!(matches!(r, Err(ZcashError::InvalidAddress(m)) if m == "Not a UA"));
    let r2 = best_recipient_of_ua(true, "garbage".to_owned());
    assert!(matches!(r2, Err(ZcashError::InvalidAddress(a)) if a == "garbage"));
}

#[test]
fn hex_round_trips() {
    let v = zvault::decode_hexstring("00ff10ab").unwrap();
    assert_eq!(v, vec![0x00, 0xff, 0x10, 0xab]);
    assert!(zvault::decode_hexstring("0g").is_err());
    assert!(zvault::decode_hexstring("abc").is_err());
    let h = "11".repeat(31) + "22";
    let fw = zvault::to_uhash(&h).unwrap();
    assert_eq!(fw[31], 0x22);
    let rev = zvault::to_hash(&h).unwrap();
    assert_eq!(rev[0], 0x22);
    assert!(zvault::to_hash("aabb").is_err());
}

#[test]
fn str_eq_compares_contents() {
    assert!(zvault::str_eq("abc", "abc"));
    assert!(!zvault::str_eq("abc", "abd"));
    assert!(!zvault::str_eq("abc", "abcd"));
}
