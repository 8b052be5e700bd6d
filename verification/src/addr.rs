//! Address handling: the vault's derived transparent address and
//! outgoing-viewing key, and classification of recipient addresses by
//! their receivers.
//!
//! Receivers are modeled as raw receiver data (hashes and raw shielded
//! address bytes); encoding and decoding of address strings is delegated
//! to the address codec.
use vstd::prelude::*;

use zcash_address::unified as uni;
use zcash_keys::address::Address as ZAddr;
use zcash_keys::address::UnifiedAddress;
use zcash_protocol::consensus::Network as ZNet;
use zcash_transparent::address::TransparentAddress as TAddr;

use crate::ZcashError;

verus! {

/// One receiver of an address: raw receiver data by pool.
#[derive(Debug)]
pub enum Receiver {
    /// 20-byte public-key hash.
    P2pkh(Vec<u8>),
    /// 20-byte script hash.
    P2sh(Vec<u8>),
    /// 43-byte raw first-generation shielded address.
    Sapling(Vec<u8>),
    /// 43-byte raw second-generation shielded address.
    Orchard(Vec<u8>),
    /// A receiver of an unknown typecode, kept for set comparisons.
    Unknown(u32, Vec<u8>),
}

/// Spec-level receiver data.
pub enum RecvV {
    P2pkh(Seq<u8>),
    P2sh(Seq<u8>),
    Sapling(Seq<u8>),
    Orchard(Seq<u8>),
    Unknown(u32, Seq<u8>),
}

impl View for Receiver {
    type V = RecvV;

    open spec fn view(&self) -> RecvV {
        match self {
            Receiver::P2pkh(h) => RecvV::P2pkh(h@),
            Receiver::P2sh(h) => RecvV::P2sh(h@),
            Receiver::Sapling(b) => RecvV::Sapling(b@),
            Receiver::Orchard(b) => RecvV::Orchard(b@),
            Receiver::Unknown(t, b) => RecvV::Unknown(*t, b@),
        }
    }
}

impl DeepView for Receiver {
    type V = RecvV;

    open spec fn deep_view(&self) -> RecvV {
        self.view()
    }
}

/// The shape of a decoded address: its kind and, for a single-receiver
/// address, its receiver.
#[derive(Debug, Clone, Copy, PartialEq, Eq, Structural)]
pub enum AddrKind {
    Transparent,
    Sapling,
    Unified,
    Tex,
}

/// A decoded address: its kind, and its receiver for single-receiver
/// kinds.  The receivers of a unified address are fetched separately.
#[derive(Debug)]
pub struct DecodedAddr {
    pub kind: AddrKind,
    pub receivers: Vec<Receiver>,
}

/// Spec-level decoded address.
pub struct DecodedV {
    pub kind: AddrKind,
    pub receivers: Seq<RecvV>,
}

impl View for DecodedAddr {
    type V = DecodedV;

    open spec fn view(&self) -> DecodedV {
        DecodedV { kind: self.kind, receivers: self.receivers.deep_view() }
    }
}

#[verifier::external_type_specification]
#[verifier::external_body]
pub struct ExZNet(ZNet);

/// Relies on the protocol crate's network parameter sets.
#[verifier::external_body]
pub(crate) fn znet(mainnet: bool) -> (r: ZNet)
{
    if mainnet { ZNet::MainNetwork } else { ZNet::TestNetwork }
}

/// Whether 43 raw bytes are a well-formed first-generation shielded
/// receiver, as `sapling_crypto::PaymentAddress::from_bytes` decides.
pub uninterp spec fn is_sapling_receiver(raw: Seq<u8>) -> bool;

/// Whether 43 raw bytes are a well-formed second-generation shielded
/// receiver, as `orchard::Address::from_raw_address_bytes` decides.
pub uninterp spec fn is_orchard_receiver(raw: Seq<u8>) -> bool;

/// Well-formedness of receiver data: hashes of 20 bytes, shielded
/// receivers of 43 valid bytes.  Decoded addresses carry only such
/// receivers, because the codec validates them while parsing.
pub open spec fn spec_receiver_wf(rc: RecvV) -> bool {
    match rc {
        RecvV::P2pkh(h) => h.len() == 20,
        RecvV::P2sh(h) => h.len() == 20,
        RecvV::Sapling(b) => b.len() == 43 && is_sapling_receiver(b),
        RecvV::Orchard(b) => b.len() == 43 && is_orchard_receiver(b),
        RecvV::Unknown(_, _) => true,
    }
}

/// What the address codec yields for a string on the given network:
/// nothing for an undecodable string, else the address's kind and, for
/// single-receiver kinds, its receiver data.
pub uninterp spec fn decoded_address_of(mainnet: bool, s: Seq<char>) -> Option<DecodedV>;

/// The receivers encoded in a unified address string, in order.
pub uninterp spec fn unified_receivers_of(s: Seq<char>) -> Option<Seq<RecvV>>;

/// Relies on `zcash_keys::address::Address::decode`: classifies an
/// encoded address against the network's encoding rules and exposes the
/// raw receiver data of single-receiver addresses.  The codec validates
/// while parsing: a transparent or first-generation address carries
/// exactly one receiver of its kind, and every shielded receiver of a
/// decoded unified address parses as a valid receiver.
#[verifier::external_body]
pub(crate) fn decode_address(mainnet: bool, addr: &str) -> (r: Option<DecodedAddr>)
    ensures
        match r {
            Some(d) => decoded_address_of(mainnet, addr@) == Some(d@) && match d.kind {
                AddrKind::Transparent => d@.receivers.len() == 1 && (d@.receivers[0] is P2pkh
                    || d@.receivers[0] is P2sh) && spec_receiver_wf(d@.receivers[0]),
                AddrKind::Sapling => d@.receivers.len() == 1 && d@.receivers[0] is Sapling
                    && spec_receiver_wf(d@.receivers[0]),
                AddrKind::Unified => unified_receivers_of(addr@) matches Some(rs) && rs.len() >= 1
                    && forall|i: int| 0 <= i < rs.len() ==> spec_receiver_wf(#[trigger] rs[i]),
                AddrKind::Tex => d@.receivers.len() == 0,
            },
            None => decoded_address_of(mainnet, addr@) is None,
        },
{
    let net = znet(mainnet);
    let (kind, receivers) = match ZAddr::decode(&net, addr)? {
        ZAddr::Tex(_) => (AddrKind::Tex, vec![]),
        ZAddr::Transparent(TAddr::PublicKeyHash(h)) => (
            AddrKind::Transparent,
            vec![Receiver::P2pkh(h.to_vec())],
        ),
        ZAddr::Transparent(TAddr::ScriptHash(h)) => (
            AddrKind::Transparent,
            vec![Receiver::P2sh(h.to_vec())],
        ),
        ZAddr::Sapling(p) => (AddrKind::Sapling, vec![Receiver::Sapling(p.to_bytes().to_vec())]),
        ZAddr::Unified(_) => (AddrKind::Unified, vec![]),
    };
    Some(DecodedAddr { kind, receivers })
}

/// Relies on `zcash_address::unified::Address::decode` and
/// `Container::items`: the receivers a unified address encodes, hashes of
/// 20 bytes and shielded receivers of 43 bytes by their wire format.
#[verifier::external_body]
pub(crate) fn decode_unified_receivers(addr: &str) -> (r: Option<Vec<Receiver>>)
    ensures
        match r {
            Some(v) => unified_receivers_of(addr@) == Some(v.deep_view()) && forall|i: int|
                0 <= i < v.deep_view().len() ==> match #[trigger] v.deep_view()[i] {
                    RecvV::P2pkh(h) => h.len() == 20,
                    RecvV::P2sh(h) => h.len() == 20,
                    RecvV::Sapling(b) => b.len() == 43,
                    RecvV::Orchard(b) => b.len() == 43,
                    RecvV::Unknown(_, _) => true,
                },
            None => unified_receivers_of(addr@) is None,
        },
{
    let (_, ua) = <uni::Address as uni::Encoding>::decode(addr).ok()?;
    let items = uni::Container::items(&ua);
    Some(items.into_iter().map(|it| match it {
        uni::Receiver::P2pkh(h) => Receiver::P2pkh(h.to_vec()),
        uni::Receiver::P2sh(h) => Receiver::P2sh(h.to_vec()),
        uni::Receiver::Sapling(b) => Receiver::Sapling(b.to_vec()),
        uni::Receiver::Orchard(b) => Receiver::Orchard(b.to_vec()),
        uni::Receiver::Unknown { typecode, data } => Receiver::Unknown(typecode, data),
    }).collect())
}

/// What the codec produces for a transparent public-key-hash receiver.
pub uninterp spec fn encoded_transparent_of(mainnet: bool, pkh: Seq<u8>) -> Seq<char>;

/// Relies on `zcash_keys::address::Address::encode` for a transparent
/// public-key-hash receiver; the codec guarantees that the encoding
/// decodes back to the same receiver.
#[verifier::external_body]
pub(crate) fn encode_transparent_pkh(mainnet: bool, pkh: &Vec<u8>) -> (r: String)
    requires
        pkh@.len() == 20,
    ensures
        r@ == encoded_transparent_of(mainnet, pkh@),
        decoded_address_of(mainnet, r@) == Some(
            DecodedV { kind: AddrKind::Transparent, receivers: seq![RecvV::P2pkh(pkh@)] },
        ),
{
    let net = znet(mainnet);
    let h: [u8; 20] = pkh.as_slice().try_into().unwrap();
    ZAddr::Transparent(TAddr::PublicKeyHash(h)).encode(&net)
}

/// What the codec produces for a raw first-generation shielded address.
pub uninterp spec fn encoded_sapling_of(mainnet: bool, raw: Seq<u8>) -> Seq<char>;

/// Relies on `sapling_crypto::PaymentAddress::from_bytes` and
/// `zcash_keys::address::Address::encode`; an encoding obtained this way
/// decodes back to the same receiver.
#[verifier::external_body]
pub(crate) fn encode_sapling(mainnet: bool, raw: &Vec<u8>) -> (r: Option<String>)
    requires
        raw@.len() == 43,
    ensures
        match r {
            Some(s) => is_sapling_receiver(raw@) && s@ == encoded_sapling_of(mainnet, raw@)
                && decoded_address_of(mainnet, s@) == Some(
                DecodedV { kind: AddrKind::Sapling, receivers: seq![RecvV::Sapling(raw@)] },
            ),
            None => !is_sapling_receiver(raw@),
        },
{
    let net = znet(mainnet);
    let b: [u8; 43] = raw.as_slice().try_into().unwrap();
    let p = sapling_crypto::PaymentAddress::from_bytes(&b)?;
    Some(ZAddr::Sapling(p).encode(&net))
}

/// What the codec produces for a unified address holding one raw
/// second-generation shielded receiver.
pub uninterp spec fn encoded_orchard_of(mainnet: bool, raw: Seq<u8>) -> Seq<char>;

/// Relies on `orchard::Address::from_raw_address_bytes`,
/// `zcash_keys::address::UnifiedAddress::from_receivers` and
/// `Address::encode`; an encoding obtained this way is a unified address
/// holding exactly that receiver.
#[verifier::external_body]
pub(crate) fn encode_orchard_ua(mainnet: bool, raw: &Vec<u8>) -> (r: Option<String>)
    requires
        raw@.len() == 43,
    ensures
        match r {
            Some(s) => is_orchard_receiver(raw@) && s@ == encoded_orchard_of(mainnet, raw@) && (
            decoded_address_of(mainnet, s@) matches Some(d) && d.kind == AddrKind::Unified)
                && unified_receivers_of(s@) == Some(seq![RecvV::Orchard(raw@)]),
            None => !is_orchard_receiver(raw@),
        },
{
    let net = znet(mainnet);
    let b: [u8; 43] = raw.as_slice().try_into().unwrap();
    let o = Option::<orchard::Address>::from(orchard::Address::from_raw_address_bytes(&b))?;
    let ua = UnifiedAddress::from_receivers(Some(o), None, None)?;
    Some(ZAddr::Unified(ua).encode(&net))
}

/// The vault's deterministic outgoing-viewing key for a public key.
pub uninterp spec fn ovk_of(pubkey: Seq<u8>) -> Seq<u8>;

/// Relies on `blake2b_simd`: a 32-byte hash of the public key under a
/// fixed 16-byte personalization label, deterministic in its input.
#[verifier::external_body]
pub(crate) fn blake2b_ovk(pubkey: &Vec<u8>) -> (r: Vec<u8>)
    ensures
        r@ == ovk_of(pubkey@),
        r@.len() == 32,
{
    let hash = blake2b_simd::Params::new().hash_length(32).personal(b"Zcash_Maya_OVK__").hash(
        pubkey.as_slice(),
    );
    hash.as_bytes().to_vec()
}

/// Whether a byte string is a valid compressed curve point accepted by
/// `secp256k1::PublicKey::from_slice`.
pub uninterp spec fn is_secp_pubkey(b: Seq<u8>) -> bool;

/// Relies on `secp256k1::PublicKey::from_slice`: parses deterministically,
/// succeeding exactly on valid public-key encodings.
#[verifier::external_body]
pub(crate) fn secp_pubkey_valid(b: &Vec<u8>) -> (r: bool)
    ensures
        r == is_secp_pubkey(b@),
{
    secp256k1::PublicKey::from_slice(b.as_slice()).is_ok()
}

/// The SHA-256 digest of a byte string.
pub uninterp spec fn sha256_of(b: Seq<u8>) -> Seq<u8>;

/// Relies on `sha2::Sha256`: a 32-byte digest, deterministic in its input.
#[verifier::external_body]
pub(crate) fn sha256(b: &Vec<u8>) -> (r: Vec<u8>)
    ensures
        r@ == sha256_of(b@),
        r@.len() == 32,
{
    let d = <sha2::Sha256 as sha2::Digest>::digest(b.as_slice());
    d.to_vec()
}

/// The RIPEMD-160 digest of a byte string.
pub uninterp spec fn ripemd160_of(b: Seq<u8>) -> Seq<u8>;

/// Relies on `ripemd::Ripemd160`: a 20-byte digest, deterministic in its
/// input.
#[verifier::external_body]
pub(crate) fn ripemd160(b: &Vec<u8>) -> (r: Vec<u8>)
    ensures
        r@ == ripemd160_of(b@),
        r@.len() == 20,
{
    let d = <ripemd::Ripemd160 as ripemd::Digest>::digest(b.as_slice());
    d.to_vec()
}

/// The vault's transparent address: the public-key hash of the vault key,
/// encoded for the network.
pub open spec fn spec_vault_address(mainnet: bool, pubkey: Seq<u8>) -> Seq<char> {
    encoded_transparent_of(mainnet, ripemd160_of(sha256_of(pubkey)))
}

/// Derives the vault's transparent receiving address from its public key.
/// Fails exactly when the public key is not a valid compressed point.
pub fn get_vault_address(mainnet: bool, pubkey: Vec<u8>) -> (r: Result<String, ZcashError>)
    ensures
        match r {
            Ok(a) => is_secp_pubkey(pubkey@) && a@ == spec_vault_address(mainnet, pubkey@),
            Err(e) => !is_secp_pubkey(pubkey@) && e is InvalidVaultPubkey,
        },
{
    if !secp_pubkey_valid(&pubkey) {
        return Err(ZcashError::InvalidVaultPubkey);
    }
    let sha = sha256(&pubkey);
    let pkh = ripemd160(&sha);
    Ok(encode_transparent_pkh(mainnet, &pkh))
}

/// Derives the vault's deterministic outgoing-viewing key from its public
/// key: a keyed hash any holder of the public key can reproduce.
pub fn get_ovk(pubkey: Vec<u8>) -> (r: Result<Vec<u8>, ZcashError>)
    ensures
        r matches Ok(k) && k@ == ovk_of(pubkey@) && k@.len() == 32,
{
    Ok(blake2b_ovk(&pubkey))
}

/// Whether an address decodes for the network and is acceptable by
/// policy: exchange-only addresses are rejected even though they are
/// syntactically valid.
pub open spec fn spec_address_valid(mainnet: bool, s: Seq<char>) -> bool {
    match decoded_address_of(mainnet, s) {
        Some(d) => d.kind != AddrKind::Tex,
        None => false,
    }
}

/// Validates an address string against the network's encoding rules,
/// rejecting exchange-only addresses by policy.
pub fn validate_address(mainnet: bool, address: String) -> (r: Result<bool, ZcashError>)
    ensures
        r matches Ok(b) && b == spec_address_valid(mainnet, address@),
{
    match decode_address(mainnet, address.as_str()) {
        None => Ok(false),
        Some(d) => match d.kind {
            AddrKind::Tex => Ok(false),
            _ => Ok(true),
        },
    }
}

/// The full receiver set an address stands for: the items of a unified
/// address, the single receiver of a transparent or first-generation
/// shielded address, and nothing for an exchange-only or undecodable
/// address.
pub open spec fn spec_extract_receivers(mainnet: bool, s: Seq<char>) -> Option<Seq<RecvV>> {
    match decoded_address_of(mainnet, s) {
        None => None,
        Some(d) => match d.kind {
            AddrKind::Tex => None,
            AddrKind::Unified => unified_receivers_of(s),
            _ => Some(d.receivers),
        },
    }
}

/// Extracts every receiver an address stands for; fails on an address
/// that does not decode or is exchange-only.
pub fn extract_receivers(mainnet: bool, address: &str) -> (r: Result<Vec<Receiver>, ZcashError>)
    ensures
        match r {
            Ok(v) => spec_extract_receivers(mainnet, address@) == Some(v.deep_view()),
            Err(e) => spec_extract_receivers(mainnet, address@) is None && (e matches
                ZcashError::InvalidAddress(a) && a@ == address@),
        },
        r matches Ok(v) ==> v@.len() >= 1,
        r matches Ok(v) ==> match decoded_address_of(mainnet, address@) {
            Some(d) => match d.kind {
                AddrKind::Transparent => v@.len() == 1 && (v.deep_view()[0] is P2pkh
                    || v.deep_view()[0] is P2sh),
                AddrKind::Sapling => v@.len() == 1 && v.deep_view()[0] is Sapling,
                _ => true,
            },
            None => false,
        },
{
    let d = match decode_address(mainnet, address) {
        Some(d) => d,
        None => {
            return Err(ZcashError::InvalidAddress(address.to_owned()));
        },
    };
    match d.kind {
        AddrKind::Tex => Err(ZcashError::InvalidAddress(address.to_owned())),
        AddrKind::Unified => match decode_unified_receivers(address) {
            Some(v) => Ok(v),
            None => Err(ZcashError::InvalidAddress(address.to_owned())),
        },
        _ => Ok(d.receivers),
    }
}

/// Whether two receivers carry the same receiver data.
pub fn receiver_eq(a: &Receiver, b: &Receiver) -> (r: bool)
    ensures
        r == (a@ == b@),
{
    match (a, b) {
        (Receiver::P2pkh(x), Receiver::P2pkh(y)) => bytes_eq(x, y),
        (Receiver::P2sh(x), Receiver::P2sh(y)) => bytes_eq(x, y),
        (Receiver::Sapling(x), Receiver::Sapling(y)) => bytes_eq(x, y),
        (Receiver::Orchard(x), Receiver::Orchard(y)) => bytes_eq(x, y),
        (Receiver::Unknown(t, x), Receiver::Unknown(u, y)) => *t == *u && bytes_eq(x, y),
        _ => false,
    }
}

/// Compares two byte vectors for equality of their contents.
fn bytes_eq(a: &Vec<u8>, b: &Vec<u8>) -> (r: bool)
    ensures
        r == (a@ == b@),
{
    if a.len() != b.len() {
        return false;
    }
    let n = a.len();
    let mut i: usize = 0;
    while i < n
        invariant
            n == a@.len(),
            n == b@.len(),
            i <= n,
            forall|j: int| 0 <= j < i ==> a@[j] == b@[j],
        decreases n - i,
    {
        if a[i] != b[i] {
            return false;
        }
        i = i + 1;
    }
    proof {
        assert(a@ =~= b@);
    }
    true
}

/// Confirms that an on-chain observed address is consistent with a
/// claimed address: the observed address must stand for exactly one
/// receiver, and that receiver must be among the claimed address's
/// receiver set.
pub fn match_with_blockchain_receiver(mainnet: bool, address: String, receiver: String) -> (r:
    Result<bool, ZcashError>)
    ensures
        match r {
            Ok(b) => match (
                spec_extract_receivers(mainnet, address@),
                spec_extract_receivers(mainnet, receiver@),
            ) {
                (Some(ars), Some(rs)) => rs.len() == 1 && b == ars.contains(rs[0]),
                _ => false,
            },
            Err(e) => match (
                spec_extract_receivers(mainnet, address@),
                spec_extract_receivers(mainnet, receiver@),
            ) {
                (None, _) => e matches ZcashError::InvalidAddress(a) && a@ == address@,
                (Some(_), None) => e matches ZcashError::InvalidAddress(a) && a@ == receiver@,
                (Some(_), Some(rs)) => rs.len() != 1 && (e matches ZcashError::AssertError(m)
                    && m@ == "Blockchain address must have a single receiver"@),
            },
        },
{
    let address_receivers = extract_receivers(mainnet, address.as_str())?;
    let receivers = extract_receivers(mainnet, receiver.as_str())?;
    if receivers.len() != 1 {
        return Err(ZcashError::AssertError(
            "Blockchain address must have a single receiver".to_owned(),
        ));
    }
    let target = &receivers[0];
    let n = address_receivers.len();
    let mut i: usize = 0;
    while i < n
        invariant
            n == address_receivers@.len(),
            i <= n,
            forall|j: int| 0 <= j < i ==> address_receivers@[j]@ != target@,
            receivers@.len() == 1,
            target@ == receivers.deep_view()[0],
            spec_extract_receivers(mainnet, address@) == Some(address_receivers.deep_view()),
            spec_extract_receivers(mainnet, receiver@) == Some(receivers.deep_view()),
        decreases n - i,
    {
        if receiver_eq(&address_receivers[i], target) {
            proof {
                assert(address_receivers.deep_view()[i as int] == address_receivers@[i as int]@);
                assert(address_receivers.deep_view().contains(receivers.deep_view()[0]));
            }
            return Ok(true);
        }
        i = i + 1;
    }
    proof {
        assert forall|j: int| 0 <= j < address_receivers.deep_view().len() implies
            address_receivers.deep_view()[j] != receivers.deep_view()[0] by {
            assert(address_receivers.deep_view()[j] == address_receivers@[j]@);
        }
    }
    Ok(false)
}

/// The first second-generation receiver in a receiver list.
pub open spec fn first_orchard(rs: Seq<RecvV>) -> Option<Seq<u8>>
    decreases rs.len(),
{
    if rs.len() == 0 {
        None
    } else {
        match rs[0] {
            RecvV::Orchard(b) => Some(b),
            _ => first_orchard(rs.drop_first()),
        }
    }
}

/// The first first-generation shielded receiver in a receiver list.
pub open spec fn first_sapling(rs: Seq<RecvV>) -> Option<Seq<u8>>
    decreases rs.len(),
{
    if rs.len() == 0 {
        None
    } else {
        match rs[0] {
            RecvV::Sapling(b) => Some(b),
            _ => first_sapling(rs.drop_first()),
        }
    }
}

/// Normalizes a unified address to its strongest privacy receiver:
/// second-generation shielded if present, else first-generation shielded,
/// else the address is rejected.
pub fn best_recipient_of_ua(mainnet: bool, address: String) -> (r: Result<String, ZcashError>)
    ensures
        ({
            let d = decoded_address_of(mainnet, address@);
            let items = unified_receivers_of(address@);
            match r {
                Ok(s) => {
                    &&& d matches Some(dd) && dd.kind == AddrKind::Unified
                    &&& items matches Some(rs)
                    &&& (items matches Some(rs) ==> match first_orchard(rs) {
                        Some(b) => s@ == encoded_orchard_of(mainnet, b),
                        None => match first_sapling(rs) {
                            Some(b) => s@ == encoded_sapling_of(mainnet, b),
                            None => false,
                        },
                    })
                },
                Err(e) => match d {
                    None => e matches ZcashError::InvalidAddress(a) && a@ == address@,
                    Some(dd) => {
                        if dd.kind != AddrKind::Unified {
                            e matches ZcashError::InvalidAddress(m) && m@ == "Not a UA"@
                        } else {
                            match items {
                                None => e matches ZcashError::InvalidAddress(a) && a@ == address@,
                                Some(rs) => first_orchard(rs) is None && first_sapling(rs) is None
                                    && e is NoOrchardReceiver,
                            }
                        }
                    },
                },
            }
        }),
{
    let d = match decode_address(mainnet, address.as_str()) {
        Some(d) => d,
        None => {
            return Err(ZcashError::InvalidAddress(address));
        },
    };
    match d.kind {
        AddrKind::Unified => (),
        _ => {
            return Err(ZcashError::InvalidAddress("Not a UA".to_owned()));
        },
    }
    let items = match decode_unified_receivers(address.as_str()) {
        Some(v) => v,
        None => {
            return Err(ZcashError::InvalidAddress(address));
        },
    };
    let n = items.len();
    let mut i: usize = 0;
    proof {
        assert(items.deep_view().skip(0) =~= items.deep_view());
    }
    while i < n
        invariant
            n == items@.len(),
            i <= n,
            first_orchard(items.deep_view()) == first_orchard(items.deep_view().skip(i as int)),
            forall|j: int| 0 <= j < i ==> !(items@[j]@ is Orchard),
            forall|j: int|
                0 <= j < items@.len() ==> spec_receiver_wf(#[trigger] items.deep_view()[j]),
            decoded_address_of(mainnet, address@) matches Some(dd) && dd.kind
                == AddrKind::Unified,
            unified_receivers_of(address@) == Some(items.deep_view()),
        decreases n - i,
    {
        proof {
            assert(items.deep_view().skip(i as int).drop_first() =~= items.deep_view().skip(
                i + 1,
            ));
            assert(items.deep_view().skip(i as int)[0] == items@[i as int]@);
        }
        match &items[i] {
            Receiver::Orchard(b) => {
                // the codec validated this receiver while decoding
                proof {
                    assert(spec_receiver_wf(items.deep_view()[i as int]));
                }
                match encode_orchard_ua(mainnet, b) {
                    Some(s) => {
                        return Ok(s);
                    },
                    None => {
                        return Err(ZcashError::AssertError(
                            "Invalid orchard receiver".to_owned(),
                        ));
                    },
                }
            },
            _ => (),
        }
        i = i + 1;
    }
    proof {
        assert(items.deep_view().skip(n as int) =~= Seq::<RecvV>::empty());
    }
    let mut k: usize = 0;
    proof {
        assert(items.deep_view().skip(0) =~= items.deep_view());
    }
    while k < n
        invariant
            n == items@.len(),
            k <= n,
            first_orchard(items.deep_view()) is None,
            first_sapling(items.deep_view()) == first_sapling(items.deep_view().skip(k as int)),
            forall|j: int|
                0 <= j < items@.len() ==> spec_receiver_wf(#[trigger] items.deep_view()[j]),
            decoded_address_of(mainnet, address@) matches Some(dd) && dd.kind
                == AddrKind::Unified,
            unified_receivers_of(address@) == Some(items.deep_view()),
        decreases n - k,
    {
        proof {
            assert(items.deep_view().skip(k as int).drop_first() =~= items.deep_view().skip(
                k + 1,
            ));
            assert(items.deep_view().skip(k as int)[0] == items@[k as int]@);
        }
        match &items[k] {
            Receiver::Sapling(b) => {
                // the codec validated this receiver while decoding
                proof {
                    assert(spec_receiver_wf(items.deep_view()[k as int]));
                }
                match encode_sapling(mainnet, b) {
                    Some(s) => {
                        return Ok(s);
                    },
                    None => {
                        return Err(ZcashError::AssertError(
                            "Invalid sapling receiver".to_owned(),
                        ));
                    },
                }
            },
            _ => (),
        }
        k = k + 1;
    }
    proof {
        assert(items.deep_view().skip(n as int) =~= Seq::<RecvV>::empty());
    }
    Err(ZcashError::NoOrchardReceiver)
}

/// Address round trip for a transparent public-key-hash receiver:
/// decoding the encoding of the receiver yields the receiver back.
pub fn reencode_transparent(mainnet: bool, pkh: &Vec<u8>) -> (r: Option<Receiver>)
    requires
        pkh@.len() == 20,
    ensures
        r matches Some(rc) && rc@ == RecvV::P2pkh(pkh@),
{
    let s = encode_transparent_pkh(mainnet, pkh);
    let d = decode_address(mainnet, s.as_str())?;
    let mut v = d.receivers;
    proof {
        assert(v.deep_view() =~= seq![RecvV::P2pkh(pkh@)]);
        assert(v.deep_view()[0] == v@[0]@);
    }
    if v.len() == 1 {
        v.pop()
    } else {
        None
    }
}

/// Address round trip for a first-generation shielded receiver: when the
/// raw receiver encodes, decoding the encoding yields the receiver back.
pub fn reencode_sapling(mainnet: bool, raw: &Vec<u8>) -> (r: Option<Receiver>)
    requires
        raw@.len() == 43,
    ensures
        match r {
            Some(rc) => rc@ == RecvV::Sapling(raw@),
            None => true,
        },
{
    let s = encode_sapling(mainnet, raw)?;
    let d = decode_address(mainnet, s.as_str())?;
    let mut v = d.receivers;
    proof {
        assert(v.deep_view() =~= seq![RecvV::Sapling(raw@)]);
        assert(v.deep_view()[0] == v@[0]@);
    }
    if v.len() == 1 {
        v.pop()
    } else {
        None
    }
}

/// Address round trip for a second-generation shielded receiver: when the
/// raw receiver encodes, the unified address it yields holds exactly that
/// receiver.
pub fn reencode_orchard(mainnet: bool, raw: &Vec<u8>) -> (r: Option<Receiver>)
    requires
        raw@.len() == 43,
    ensures
        match r {
            Some(rc) => rc@ == RecvV::Orchard(raw@),
            None => true,
        },
{
    let s = encode_orchard_ua(mainnet, raw)?;
    let mut v = decode_unified_receivers(s.as_str())?;
    proof {
        assert(v.deep_view() =~= seq![RecvV::Orchard(raw@)]);
        assert(v.deep_view()[0] == v@[0]@);
    }
    if v.len() == 1 {
        v.pop()
    } else {
        None
    }
}


/// Copies exactly 20 bytes into a fixed array.
fn to_arr20(v: &Vec<u8>) -> (r: [u8; 20])
    requires
        v@.len() == 20,
    ensures
        r@ == v@,
{
    let mut a: [u8; 20] = [0u8; 20];
    let mut i: usize = 0;
    while i < 20
        invariant
            i <= 20,
            v@.len() == 20,
            forall|j: int| 0 <= j < i ==> a@[j] == v@[j],
        decreases 20 - i,
    {
        a[i] = v[i];
        i = i + 1;
    }
    proof {
        assert(a@ =~= v@);
    }
    a
}

/// Copies exactly 43 bytes into a fixed array.
fn to_arr43(v: &Vec<u8>) -> (r: [u8; 43])
    requires
        v@.len() == 43,
    ensures
        r@ == v@,
{
    let mut a: [u8; 43] = [0u8; 43];
    let mut i: usize = 0;
    while i < 43
        invariant
            i <= 43,
            v@.len() == 43,
            forall|j: int| 0 <= j < i ==> a@[j] == v@[j],
        decreases 43 - i,
    {
        a[i] = v[i];
        i = i + 1;
    }
    proof {
        assert(a@ =~= v@);
    }
    a
}

/// Relies on `UnifiedAddress::from_receivers` and `Address::encode`: a
/// unified address built from the given receivers encodes exactly those
/// receivers — each is among the items its encoding decodes to, and no
/// other item exists.  Construction fails exactly on an invalid shielded
/// receiver or when no shielded receiver is given.
#[verifier::external_body]
fn make_ua_from_receivers(
    mainnet: bool,
    transparent_hash: Option<&[u8; 20]>,
    transparent_script: bool,
    sapling_raw: Option<&[u8; 43]>,
    orchard_raw: Option<&[u8; 43]>,
) -> (r: Option<String>)
    ensures
        match r {
            Some(s) => {
                &&& unified_receivers_of(s@) is Some
                &&& (unified_receivers_of(s@) matches Some(rs) ==> {
                    &&& (transparent_hash matches Some(b) ==> rs.contains(
                        if transparent_script {
                            RecvV::P2sh(b@)
                        } else {
                            RecvV::P2pkh(b@)
                        },
                    ))
                    &&& (sapling_raw matches Some(b) ==> rs.contains(RecvV::Sapling(b@)))
                    &&& (orchard_raw matches Some(b) ==> rs.contains(RecvV::Orchard(b@)))
                    &&& rs.len() == (if transparent_hash is Some {
                        1int
                    } else {
                        0int
                    }) + (if sapling_raw is Some {
                        1int
                    } else {
                        0int
                    }) + (if orchard_raw is Some {
                        1int
                    } else {
                        0int
                    })
                })
            },
            None => {
                ||| (sapling_raw matches Some(b) && !is_sapling_receiver(b@))
                ||| (orchard_raw matches Some(b) && !is_orchard_receiver(b@))
                ||| (sapling_raw is None && orchard_raw is None)
            },
        },
{
    let t = transparent_hash.map(|b| {
        if transparent_script { TAddr::ScriptHash(*b) } else { TAddr::PublicKeyHash(*b) }
    });
    let s = match sapling_raw {
        Some(b) => Some(sapling_crypto::PaymentAddress::from_bytes(b)?),
        None => None,
    };
    let o = match orchard_raw {
        Some(b) => Some(Option::<orchard::Address>::from(orchard::Address::from_raw_address_bytes(b))?),
        None => None,
    };
    let ua = UnifiedAddress::from_receivers(o, s, t)?;
    Some(ZAddr::Unified(ua).encode(&znet(mainnet)))
}

/// A receiver list in which every entry is well formed yields a valid
/// first receiver of each shielded kind, when one exists.
proof fn lemma_first_shielded_wf(rs: Seq<RecvV>)
    requires
        forall|i: int| 0 <= i < rs.len() ==> spec_receiver_wf(#[trigger] rs[i]),
    ensures
        match first_orchard(rs) {
            Some(b) => b.len() == 43 && is_orchard_receiver(b),
            None => true,
        },
        match first_sapling(rs) {
            Some(b) => b.len() == 43 && is_sapling_receiver(b),
            None => true,
        },
    decreases rs.len(),
{
    if rs.len() > 0 {
        assert(spec_receiver_wf(rs[0]));
        assert forall|i: int| 0 <= i < rs.drop_first().len() implies spec_receiver_wf(
            #[trigger] rs.drop_first()[i],
        ) by {
            assert(rs.drop_first()[i] == rs[i + 1]);
        }
        lemma_first_shielded_wf(rs.drop_first());
    }
}

/// Builds a unified address from up to three single-receiver addresses,
/// one per pool.  The result's receiver set holds exactly the given
/// receivers: each sub-address's receiver is contained, and the item
/// count equals the number of given sub-addresses.  Construction is owed
/// whenever every given sub-address decodes to its expected kind and at
/// least one shielded sub-address is given.
pub fn make_ua(
    mainnet: bool,
    transparent: Option<String>,
    sapling: Option<String>,
    orchard: Option<String>,
) -> (r: Result<String, ZcashError>)
    ensures
        ({
            let t_ok = match transparent {
                Some(t) => decoded_address_of(mainnet, t@) matches Some(d) && d.kind
                    == AddrKind::Transparent,
                None => true,
            };
            let s_ok = match sapling {
                Some(t) => decoded_address_of(mainnet, t@) matches Some(d) && d.kind
                    == AddrKind::Sapling,
                None => true,
            };
            let o_ok = match orchard {
                Some(t) => (decoded_address_of(mainnet, t@) matches Some(d) && d.kind
                    == AddrKind::Unified) && (unified_receivers_of(t@) matches Some(ors)
                    && first_orchard(ors) is Some),
                None => true,
            };
            let shielded = sapling is Some || orchard is Some;
            &&& (t_ok && s_ok && o_ok && shielded ==> r is Ok)
            &&& (r matches Ok(s) ==> {
                &&& unified_receivers_of(s@) is Some
                &&& (unified_receivers_of(s@) matches Some(rs) ==> {
                    &&& (match transparent {
                        Some(t) => match decoded_address_of(mainnet, t@) {
                            Some(d) => d.kind == AddrKind::Transparent ==> rs.contains(
                                d.receivers[0],
                            ),
                            None => true,
                        },
                        None => true,
                    })
                    &&& (match sapling {
                        Some(t) => match decoded_address_of(mainnet, t@) {
                            Some(d) => d.kind == AddrKind::Sapling ==> rs.contains(
                                d.receivers[0],
                            ),
                            None => true,
                        },
                        None => true,
                    })
                    &&& (match orchard {
                        Some(t) => match unified_receivers_of(t@) {
                            Some(ors) => match first_orchard(ors) {
                                Some(b) => rs.contains(RecvV::Orchard(b)),
                                None => true,
                            },
                            None => true,
                        },
                        None => true,
                    })
                    &&& rs.len() == (if transparent is Some {
                        1int
                    } else {
                        0int
                    }) + (if sapling is Some {
                        1int
                    } else {
                        0int
                    }) + (if orchard is Some {
                        1int
                    } else {
                        0int
                    })
                })
            })
        }),
{
    let mut t_script = false;
    let tb: Option<[u8; 20]> = match &transparent {
        Some(t) => {
            let d = match decode_address(mainnet, t.as_str()) {
                Some(d) => d,
                None => {
                    return Err(ZcashError::InvalidAddress(t.clone()));
                },
            };
            match d.kind {
                AddrKind::Transparent => (),
                _ => {
                    return Err(ZcashError::InvalidAddress(t.clone()));
                },
            }
            if d.receivers.len() != 1 {
                return Err(ZcashError::InvalidAddress(t.clone()));
            }
            proof {
                assert(d.receivers.deep_view()[0] == d.receivers@[0]@);
            }
            match &d.receivers[0] {
                Receiver::P2pkh(h) => Some(to_arr20(h)),
                Receiver::P2sh(h) => {
                    t_script = true;
                    Some(to_arr20(h))
                },
                _ => {
                    return Err(ZcashError::InvalidAddress(t.clone()));
                },
            }
        },
        None => None,
    };
    let sb: Option<[u8; 43]> = match &sapling {
        Some(t) => {
            let d = match decode_address(mainnet, t.as_str()) {
                Some(d) => d,
                None => {
                    return Err(ZcashError::InvalidAddress(t.clone()));
                },
            };
            match d.kind {
                AddrKind::Sapling => (),
                _ => {
                    return Err(ZcashError::InvalidAddress(t.clone()));
                },
            }
            if d.receivers.len() != 1 {
                return Err(ZcashError::InvalidAddress(t.clone()));
            }
            proof {
                assert(d.receivers.deep_view()[0] == d.receivers@[0]@);
            }
            match &d.receivers[0] {
                Receiver::Sapling(b) => Some(to_arr43(b)),
                _ => {
                    return Err(ZcashError::InvalidAddress(t.clone()));
                },
            }
        },
        None => None,
    };
    let ob: Option<[u8; 43]> = match &orchard {
        Some(t) => {
            let d = match decode_address(mainnet, t.as_str()) {
                Some(d) => d,
                None => {
                    return Err(ZcashError::InvalidAddress(t.clone()));
                },
            };
            match d.kind {
                AddrKind::Unified => (),
                _ => {
                    return Err(ZcashError::InvalidAddress(t.clone()));
                },
            }
            let items = match decode_unified_receivers(t.as_str()) {
                Some(v) => v,
                None => {
                    return Err(ZcashError::InvalidAddress(t.clone()));
                },
            };
            match pick_first_orchard(&items) {
                Some(b) => {
                    proof {
                        lemma_first_shielded_wf(items.deep_view());
                    }
                    Some(to_arr43(&b))
                },
                None => {
                    return Err(ZcashError::NoOrchardReceiver);
                },
            }
        },
        None => None,
    };
    match make_ua_from_receivers(mainnet, tb.as_ref(), t_script, sb.as_ref(), ob.as_ref()) {
        Some(s) => Ok(s),
        None => Err(ZcashError::AssertError("Cannot build unified address".to_owned())),
    }
}

/// Picks the first second-generation receiver of a receiver list.
fn pick_first_orchard(items: &Vec<Receiver>) -> (r: Option<Vec<u8>>)
    ensures
        match r {
            Some(b) => first_orchard(items.deep_view()) == Some(b@),
            None => first_orchard(items.deep_view()) is None,
        },
{
    let n = items.len();
    let mut i: usize = 0;
    proof {
        assert(items.deep_view().skip(0) =~= items.deep_view());
    }
    while i < n
        invariant
            n == items@.len(),
            i <= n,
            first_orchard(items.deep_view()) == first_orchard(items.deep_view().skip(i as int)),
        decreases n - i,
    {
        proof {
            assert(items.deep_view().skip(i as int).drop_first() =~= items.deep_view().skip(
                i + 1,
            ));
            assert(items.deep_view().skip(i as int)[0] == items@[i as int]@);
        }
        match &items[i] {
            Receiver::Orchard(b) => {
                return Some(crate::clone_bytes(b));
            },
            _ => (),
        }
        i = i + 1;
    }
    proof {
        assert(items.deep_view().skip(n as int) =~= Seq::<RecvV>::empty());
    }
    None
}

} // verus!
