//! Payment planning: logical outputs, partial transactions awaiting
//! signatures, and the validation rules they share.
use vstd::prelude::*;
use vstd::string::StringSliceAdditionalSpecFns;
use vstd::utf8::encode_utf8;

use orchard::builder::InProgress as OrchardInProgress;
use orchard::builder::Unauthorized as OrchardUnauthorized;
use orchard::builder::Unproven as OrchardUnproven;
use sapling_crypto::builder::InProgress as SaplingInProgress;
use sapling_crypto::builder::Proven as SaplingProven;
use sapling_crypto::builder::Unsigned as SaplingUnsigned;
use secp256k1::ecdsa::Signature as DerSignature;
use secp256k1::Secp256k1;
use zcash_protocol::value::ZatBalance;
use zcash_protocol::value::Zatoshis;
use zcash_transparent::sighash::SighashType;

use crate::addr::decoded_address_of;
use crate::addr::znet;
use crate::addr::first_orchard;
use crate::addr::Receiver;
use crate::addr::first_sapling;
use crate::addr::get_vault_address;
use crate::addr::is_secp_pubkey;
use crate::addr::spec_vault_address;
use crate::addr::unified_receivers_of;
use crate::addr::AddrKind;
use crate::addr::RecvV;
use crate::fee::covers;
use crate::fee::spec_fee;
use crate::fee::spec_num_touts;
use crate::fee::sum_values;
use crate::wallet::secp_pubkey_of;
use crate::wallet::UTXO;
use crate::ZcashError;
use crate::{clone_bytes, decode_hexstring, hex_decoded, to_ba};

verus! {

/// A serialized transaction together with its id.
pub struct TxBytes {
    pub txid: String,
    pub data: Vec<u8>,
}

/// An intended payment to one address, pool-agnostic until the recipient's
/// best receiver is resolved.
#[derive(Debug)]
pub struct Output {
    pub address: String,
    pub amount: u64,
    pub memo: String,
}

impl Clone for Output {
    fn clone(&self) -> (r: Self)
        ensures
            r == *self,
    {
        Output { address: self.address.clone(), amount: self.amount, memo: self.memo.clone() }
    }
}

/// Spec-level logical output.
#[verifier::ext_equal]
pub struct OutputV {
    pub address: Seq<char>,
    pub amount: u64,
    pub memo: Seq<char>,
}

impl View for Output {
    type V = OutputV;

    open spec fn view(&self) -> OutputV {
        OutputV { address: self.address@, amount: self.amount, memo: self.memo@ }
    }
}

impl DeepView for Output {
    type V = OutputV;

    open spec fn deep_view(&self) -> OutputV {
        self.view()
    }
}

/// A transaction plan awaiting cryptographic assembly and authorization.
/// The seed is drawn once and reused by every later builder pass over the
/// same plan, so that randomized bundle construction is reproducible.
pub struct PartialTx {
    pub height: u32,
    pub inputs: Vec<UTXO>,
    pub outputs: Vec<Output>,
    pub fee: u64,
    pub tx_seed: Vec<u8>,
}

/// The per-transparent-input signature digests of an unauthorized
/// transaction, in input order, for the external signer.
pub struct Sighashes {
    pub hashes: Vec<Vec<u8>>,
}

/// Checks the transparent-memo length rule: at most 80 bytes.
pub fn validate_transparent_memo(memo: &str) -> (r: Result<(), ZcashError>)
    ensures
        match r {
            Ok(_) => memo.spec_bytes().len() <= 80,
            Err(e) => memo.spec_bytes().len() > 80 && (e matches ZcashError::AssertError(m)
                && m@ == "Memo too long"@),
        },
{
    if memo.as_bytes().len() > 80 {
        Err(ZcashError::AssertError("Memo too long".to_owned()))
    } else {
        Ok(())
    }
}


#[verifier::external_type_specification]
#[verifier::external_body]
pub struct ExTransparentBuilder(zcash_transparent::builder::TransparentBuilder);

#[verifier::external_type_specification]
#[verifier::external_body]
pub struct ExSaplingBuilder(sapling_crypto::builder::Builder);

#[verifier::external_type_specification]
#[verifier::external_body]
pub struct ExOrchardBuilder(orchard::builder::Builder);

#[verifier::external_type_specification]
#[verifier::external_body]
pub struct ExChaCha20Rng(rand_chacha::ChaCha20Rng);

#[verifier::external_type_specification]
#[verifier::external_body]
pub struct ExLocalTxProver(zcash_proofs::prover::LocalTxProver);

/// Opaque holder for the transparent bundle of an unauthorized plan.
#[verifier::external_body]
pub struct TBundleUnauth(
    zcash_transparent::bundle::Bundle<zcash_transparent::builder::Unauthorized>,
);

/// Opaque holder for a fully authorized transparent bundle.
#[verifier::external_body]
pub struct TBundleAuth(zcash_transparent::bundle::Bundle<zcash_transparent::bundle::Authorized>);

/// Opaque holder for a first-generation shielded bundle, proven but
/// awaiting signatures.
#[verifier::external_body]
pub struct SBundleProven(
    sapling_crypto::Bundle<SaplingInProgress<SaplingProven, SaplingUnsigned>, ZatBalance>,
);

/// Opaque holder for a second-generation shielded bundle, unproven and
/// unauthorized.
#[verifier::external_body]
pub struct OBundleUnproven(
    orchard::Bundle<OrchardInProgress<OrchardUnproven, OrchardUnauthorized>, ZatBalance>,
);

/// Opaque holder for the unauthorized transaction form whose digests are
/// computed.
#[verifier::external_body]
pub struct TxDataUnauth(
    zcash_primitives::transaction::TransactionData<zcash_primitives::transaction::Unauthorized>,
);

/// Opaque holder for the digest cache of an unauthorized transaction form.
#[verifier::external_body]
pub struct TxDigestsB(zcash_primitives::transaction::TxDigests<blake2b_simd::Hash>);

/// The protocol's money cap in minimal units; no output may exceed it.
pub const MAX_MONEY: u64 = 2_100_000_000_000_000;

/// Relies on `rand_chacha::ChaCha20Rng::from_seed`: a deterministic
/// generator from a 32-byte seed, so that both builder passes over the
/// same plan draw identical randomness.
#[verifier::external_body]
fn chacha_from_seed(seed: &[u8; 32]) -> (r: rand_chacha::ChaCha20Rng)
{
    <rand_chacha::ChaCha20Rng as rand_core::SeedableRng>::from_seed(*seed)
}

/// Relies on the system randomness source; only the seed's length is
/// promised, never its value.
#[verifier::external_body]
fn random_seed32() -> (r: Vec<u8>)
    ensures
        r@.len() == 32,
{
    let mut s = [0u8; 32];
    <rand_core::OsRng as rand_core::RngCore>::fill_bytes(&mut rand_core::OsRng, &mut s);
    s.to_vec()
}

/// Relies on `zcash_transparent::builder::TransparentBuilder::empty`.
#[verifier::external_body]
fn t_new() -> (r: zcash_transparent::builder::TransparentBuilder)
{
    zcash_transparent::builder::TransparentBuilder::empty()
}

/// Relies on `TransparentBuilder::add_p2pkh_input`: stages a coin spend
/// bound to the given public key, to be signed later.  A coin value over
/// the money cap is refused.
#[verifier::external_body]
fn t_add_input(
    tb: &mut zcash_transparent::builder::TransparentBuilder,
    pubkey: &Vec<u8>,
    txid: &[u8; 32],
    vout: u32,
    script: &Vec<u8>,
    value: u64,
) -> (r: Result<(), ()>)
    ensures
        r is Ok ==> value <= MAX_MONEY,
{
    let pk = match secp256k1::PublicKey::from_slice(pubkey.as_slice()) {
        Ok(pk) => pk,
        Err(_) => return Err(()),
    };
    let op = zcash_transparent::bundle::OutPoint::new(*txid, vout);
    let value = Zatoshis::from_u64(value).map_err(|_| ())?;
    let spk = zcash_transparent::address::Script(zcash_script::script::Code(script.clone()));
    let coin = zcash_transparent::bundle::TxOut::new(value, spk);
    tb.add_p2pkh_input(pk, op, coin).map_err(|_| ())
}

/// Relies on `TransparentBuilder::add_output` for a value output to a
/// transparent receiver.  An amount over the money cap is refused.
#[verifier::external_body]
fn t_add_output(
    tb: &mut zcash_transparent::builder::TransparentBuilder,
    script_hash: bool,
    hash: &Vec<u8>,
    value: u64,
) -> (r: Result<(), ()>)
    requires
        hash@.len() == 20,
    ensures
        r is Ok ==> value <= MAX_MONEY,
{
    let h: [u8; 20] = hash.as_slice().try_into().unwrap();
    let addr = if script_hash {
        zcash_transparent::address::TransparentAddress::ScriptHash(h)
    } else {
        zcash_transparent::address::TransparentAddress::PublicKeyHash(h)
    };
    let value = Zatoshis::from_u64(value).map_err(|_| ())?;
    tb.add_output(&addr, value).map_err(|_| ())
}

/// Relies on `TransparentBuilder::add_null_data_output`: a zero-value
/// data-only output carrying at most 80 bytes.
#[verifier::external_body]
fn t_add_null_data(
    tb: &mut zcash_transparent::builder::TransparentBuilder,
    data: &Vec<u8>,
) -> (r: Result<(), ()>)
    ensures
        r is Ok ==> data@.len() <= 80,
{
    tb.add_null_data_output(data.as_slice()).map_err(|_| ())
}

/// Relies on `TransparentBuilder::build`: none exactly when the builder
/// holds no inputs and no outputs.
#[verifier::external_body]
fn t_build(tb: zcash_transparent::builder::TransparentBuilder) -> (r: Option<TBundleUnauth>)
{
    tb.build().map(TBundleUnauth)
}

/// Relies on `sapling_crypto::builder::Builder::new` with the empty
/// anchor, suitable for bundles without shielded spends.
#[verifier::external_body]
fn s_new() -> (r: sapling_crypto::builder::Builder)
{
    sapling_crypto::builder::Builder::new(
        sapling_crypto::note_encryption::Zip212Enforcement::On,
        sapling_crypto::builder::BundleType::Transactional { bundle_required: false },
        sapling_crypto::Anchor::empty_tree(),
    )
}

/// Relies on `sapling_crypto::builder::Builder::add_output`: an encrypted
/// output to the receiver, annotated with the given outgoing viewing key.
#[verifier::external_body]
fn s_add_output(
    sb: &mut sapling_crypto::builder::Builder,
    ovk: &[u8; 32],
    raw_addr: &Vec<u8>,
    value: u64,
    memo: &Vec<u8>,
) -> (r: Result<(), ()>)
    requires
        raw_addr@.len() == 43,
        memo@.len() == 512,
{
    let ab: [u8; 43] = raw_addr.as_slice().try_into().unwrap();
    let to = sapling_crypto::PaymentAddress::from_bytes(&ab).ok_or(())?;
    let mb: [u8; 512] = memo.as_slice().try_into().unwrap();
    let k = sapling_crypto::keys::OutgoingViewingKey(*ovk);
    let v = sapling_crypto::value::NoteValue::from_raw(value);
    sb.add_output(Some(k), to, v, mb).map_err(|_| ())
}

/// Relies on `sapling_crypto::builder::Builder::build` and
/// `Bundle::create_proofs`: builds the bundle, if any outputs were staged,
/// and attaches its proofs using the proving capability.
#[verifier::external_body]
fn s_build_prove(
    sb: sapling_crypto::builder::Builder,
    rng: &mut rand_chacha::ChaCha20Rng,
    prover: Option<&zcash_proofs::prover::LocalTxProver>,
) -> (r: Result<Option<SBundleProven>, ()>)
{
    let built = sb.build::<zcash_proofs::prover::LocalTxProver, zcash_proofs::prover::LocalTxProver, _, ZatBalance>(&[], &mut *rng).map_err(|_| ())?;
    match built {
        None => Ok(None),
        Some((bundle, _)) => match prover {
            Some(p) => Ok(Some(SBundleProven(bundle.create_proofs(p, p, &mut *rng, ())))),
            None => Err(()),
        },
    }
}

/// Relies on `orchard::builder::Builder::new` with the empty anchor,
/// suitable for bundles without shielded spends.
#[verifier::external_body]
fn o_new() -> (r: Result<orchard::builder::Builder, ()>)
{
    orchard::builder::Builder::new(
        orchard::builder::BundleType::DEFAULT,
        orchard::bundle::BundleVersion::orchard_insecure_v1(),
        orchard::bundle::Flags::ENABLED,
        orchard::Anchor::empty_tree(),
    ).map_err(|_| ())
}

/// Relies on `orchard::builder::Builder::add_output`: an encrypted output
/// to the receiver, annotated with the given outgoing viewing key.
#[verifier::external_body]
fn o_add_output(
    ob: &mut orchard::builder::Builder,
    ovk: &[u8; 32],
    raw_addr: &Vec<u8>,
    value: u64,
    memo: &Vec<u8>,
) -> (r: Result<(), ()>)
    requires
        raw_addr@.len() == 43,
        memo@.len() == 512,
{
    let ab: [u8; 43] = raw_addr.as_slice().try_into().unwrap();
    let to = Option::from(orchard::Address::from_raw_address_bytes(&ab)).ok_or(())?;
    let mb: [u8; 512] = memo.as_slice().try_into().unwrap();
    let k = orchard::keys::OutgoingViewingKey::from(*ovk);
    let v = orchard::value::NoteValue::from_raw(value);
    ob.add_output(Some(k), to, v, mb).map_err(|_| ())
}

/// Relies on `orchard::builder::Builder::build`: builds the bundle, if
/// any outputs were staged, leaving proofs for finalization.
#[verifier::external_body]
fn o_build(
    ob: orchard::builder::Builder,
    rng: &mut rand_chacha::ChaCha20Rng,
) -> (r: Result<Option<OBundleUnproven>, ()>)
{
    match ob.build::<ZatBalance>(&mut *rng).map_err(|_| ())? {
        None => Ok(None),
        Some((bundle, _)) => Ok(Some(OBundleUnproven(bundle))),
    }
}


/// A logical output resolved to its best receiver: raw receiver data,
/// amount, and the pool-appropriate memo encoding.
pub enum PlannedOutput {
    /// 20-byte public-key hash, amount, optional raw memo bytes.
    TransparentP2pkh(Vec<u8>, u64, Option<Vec<u8>>),
    /// 20-byte script hash, amount, optional raw memo bytes.
    TransparentP2sh(Vec<u8>, u64, Option<Vec<u8>>),
    /// 43-byte raw first-generation receiver, amount, 512-byte memo.
    Sapling(Vec<u8>, u64, Vec<u8>),
    /// 43-byte raw second-generation receiver, amount, 512-byte memo.
    Orchard(Vec<u8>, u64, Vec<u8>),
}

/// Spec-level planned output.
#[verifier::ext_equal]
pub enum PlannedV {
    TransparentP2pkh(Seq<u8>, u64, Option<Seq<u8>>),
    TransparentP2sh(Seq<u8>, u64, Option<Seq<u8>>),
    Sapling(Seq<u8>, u64, Seq<u8>),
    Orchard(Seq<u8>, u64, Seq<u8>),
}

impl View for PlannedOutput {
    type V = PlannedV;

    open spec fn view(&self) -> PlannedV {
        match self {
            PlannedOutput::TransparentP2pkh(h, a, m) => PlannedV::TransparentP2pkh(
                h@,
                *a,
                match m {
                    Some(mm) => Some(mm@),
                    None => None,
                },
            ),
            PlannedOutput::TransparentP2sh(h, a, m) => PlannedV::TransparentP2sh(
                h@,
                *a,
                match m {
                    Some(mm) => Some(mm@),
                    None => None,
                },
            ),
            PlannedOutput::Sapling(b, a, m) => PlannedV::Sapling(b@, *a, m@),
            PlannedOutput::Orchard(b, a, m) => PlannedV::Orchard(b@, *a, m@),
        }
    }
}

impl DeepView for PlannedOutput {
    type V = PlannedV;

    open spec fn deep_view(&self) -> PlannedV {
        self.view()
    }
}

/// The 512-byte standard memo encoding of a memo string, or nothing when
/// the string does not fit a memo.
pub uninterp spec fn memo_bytes_of(s: Seq<char>) -> Option<Seq<u8>>;

/// Relies on `zcash_protocol::memo::Memo::from_str` and `MemoBytes`:
/// deterministic 512-byte memo encoding, padded per the protocol.
#[verifier::external_body]
fn encode_memo(s: &str) -> (r: Option<Vec<u8>>)
    ensures
        match r {
            Some(v) => memo_bytes_of(s@) == Some(v@) && v@.len() == 512,
            None => memo_bytes_of(s@) is None,
        },
{
    let memo = <zcash_protocol::memo::Memo as core::str::FromStr>::from_str(s).ok()?;
    let mb = zcash_protocol::memo::MemoBytes::from(&memo);
    Some(mb.as_array().to_vec())
}

/// The first transparent receiver in a receiver list, with its kind.
pub open spec fn first_transparent(rs: Seq<RecvV>) -> Option<(bool, Seq<u8>)>
    decreases rs.len(),
{
    if rs.len() == 0 {
        None
    } else {
        match rs[0] {
            RecvV::P2pkh(h) => Some((false, h)),
            RecvV::P2sh(h) => Some((true, h)),
            _ => first_transparent(rs.drop_first()),
        }
    }
}

/// How one logical output routes to a pool: a unified recipient prefers
/// its second-generation receiver, then first-generation, then
/// transparent; a bare address maps to its own pool; exchange-only
/// recipients and unusable memos route nowhere.
pub open spec fn spec_plan_output(mainnet: bool, o: crate::pay::OutputV) -> Option<PlannedV> {
    let tmemo = if o.memo.len() == 0 {
        Option::<Seq<u8>>::None
    } else {
        Some(encode_utf8(o.memo))
    };
    match decoded_address_of(mainnet, o.address) {
        None => None,
        Some(d) => match d.kind {
            AddrKind::Tex => None,
            AddrKind::Transparent => if d.receivers.len() != 1 {
                None
            } else {
                match d.receivers[0] {
                    RecvV::P2pkh(h) => Some(PlannedV::TransparentP2pkh(h, o.amount, tmemo)),
                    RecvV::P2sh(h) => Some(PlannedV::TransparentP2sh(h, o.amount, tmemo)),
                    _ => None,
                }
            },
            AddrKind::Sapling => if d.receivers.len() != 1 {
                None
            } else {
                match (d.receivers[0], memo_bytes_of(o.memo)) {
                    (RecvV::Sapling(b), Some(m)) => Some(PlannedV::Sapling(b, o.amount, m)),
                    _ => None,
                }
            },
            AddrKind::Unified => match unified_receivers_of(o.address) {
                None => None,
                Some(rs) => match first_orchard(rs) {
                    Some(b) => match memo_bytes_of(o.memo) {
                        Some(m) => Some(PlannedV::Orchard(b, o.amount, m)),
                        None => None,
                    },
                    None => match first_sapling(rs) {
                        Some(b) => match memo_bytes_of(o.memo) {
                            Some(m) => Some(PlannedV::Sapling(b, o.amount, m)),
                            None => None,
                        },
                        None => match first_transparent(rs) {
                            Some((sh, h)) => if sh {
                                Some(PlannedV::TransparentP2sh(h, o.amount, tmemo))
                            } else {
                                Some(PlannedV::TransparentP2pkh(h, o.amount, tmemo))
                            },
                            None => None,
                        },
                    },
                },
            },
        },
    }
}

/// Resolves one logical output to its planned pool entry, preferring the
/// strongest privacy receiver of a unified recipient.
pub fn plan_output(mainnet: bool, o: &Output) -> (r: Result<PlannedOutput, ZcashError>)
    ensures
        match r {
            Ok(p) => spec_plan_output(mainnet, o@) == Some(p@),
            Err(e) => spec_plan_output(mainnet, o@) is None && match decoded_address_of(
                mainnet,
                o.address@,
            ) {
                None => e matches ZcashError::InvalidAddress(a) && a@ == o.address@,
                Some(d) => match d.kind {
                    AddrKind::Tex => e matches ZcashError::InvalidAddress(a) && a@ == o.address@,
                    AddrKind::Transparent => e matches ZcashError::InvalidAddress(a) && a@
                        == o.address@,
                    AddrKind::Sapling => e matches ZcashError::AssertError(m) && m@
                        == "Invalid memo"@,
                    AddrKind::Unified => match unified_receivers_of(o.address@) {
                        None => e matches ZcashError::InvalidAddress(a) && a@ == o.address@,
                        Some(_) => e is AssertError,
                    },
                },
            },
        },
{
    let tmemo: Option<Vec<u8>> = if o.memo.as_str().as_bytes().len() == 0 {
        None
    } else {
        let mut v: Vec<u8> = Vec::new();
        let b = o.memo.as_str().as_bytes();
        let n = b.len();
        let mut i: usize = 0;
        while i < n
            invariant
                n == b@.len(),
                i <= n,
                v@ =~= b@.take(i as int),
            decreases n - i,
        {
            v.push(b[i]);
            i = i + 1;
        }
        proof {
            assert(b@.take(n as int) =~= b@);
        }
        Some(v)
    };
    proof {
        assert(o.memo@.len() == 0 <==> encode_utf8(o.memo@).len() == 0);
    }
    let d = match crate::addr::decode_address(mainnet, o.address.as_str()) {
        Some(d) => d,
        None => {
            return Err(ZcashError::InvalidAddress(o.address.clone()));
        },
    };
    match d.kind {
        AddrKind::Tex => Err(ZcashError::InvalidAddress(o.address.clone())),
        AddrKind::Transparent => {
            if d.receivers.len() != 1 {
                return Err(ZcashError::InvalidAddress(o.address.clone()));
            }
            proof {
                assert(d.receivers.deep_view()[0] == d.receivers@[0]@);
            }
            match &d.receivers[0] {
                Receiver::P2pkh(h) => Ok(
                    PlannedOutput::TransparentP2pkh(clone_bytes(h), o.amount, tmemo),
                ),
                Receiver::P2sh(h) => Ok(
                    PlannedOutput::TransparentP2sh(clone_bytes(h), o.amount, tmemo),
                ),
                _ => Err(ZcashError::InvalidAddress(o.address.clone())),
            }
        },
        AddrKind::Sapling => {
            if d.receivers.len() != 1 {
                return Err(ZcashError::InvalidAddress(o.address.clone()));
            }
            proof {
                assert(d.receivers.deep_view()[0] == d.receivers@[0]@);
            }
            let m = match encode_memo(o.memo.as_str()) {
                Some(m) => m,
                None => {
                    return Err(ZcashError::AssertError("Invalid memo".to_owned()));
                },
            };
            match &d.receivers[0] {
                Receiver::Sapling(b) => Ok(PlannedOutput::Sapling(clone_bytes(b), o.amount, m)),
                _ => Err(ZcashError::InvalidAddress(o.address.clone())),
            }
        },
        AddrKind::Unified => {
            let items = match crate::addr::decode_unified_receivers(o.address.as_str()) {
                Some(v) => v,
                None => {
                    return Err(ZcashError::InvalidAddress(o.address.clone()));
                },
            };
            match find_best_receiver(&items) {
                Some(pick) => match pick {
                    Receiver::Orchard(b) => {
                        let m = match encode_memo(o.memo.as_str()) {
                            Some(m) => m,
                            None => {
                                return Err(ZcashError::AssertError("Invalid memo".to_owned()));
                            },
                        };
                        Ok(PlannedOutput::Orchard(b, o.amount, m))
                    },
                    Receiver::Sapling(b) => {
                        let m = match encode_memo(o.memo.as_str()) {
                            Some(m) => m,
                            None => {
                                return Err(ZcashError::AssertError("Invalid memo".to_owned()));
                            },
                        };
                        Ok(PlannedOutput::Sapling(b, o.amount, m))
                    },
                    Receiver::P2pkh(h) => Ok(PlannedOutput::TransparentP2pkh(h, o.amount, tmemo)),
                    Receiver::P2sh(h) => Ok(PlannedOutput::TransparentP2sh(h, o.amount, tmemo)),
                    Receiver::Unknown(_, _) => Err(ZcashError::AssertError("Unreachable".to_owned())),
                },
                None => Err(ZcashError::AssertError("Unreachable".to_owned())),
            }
        },
    }
}

/// Picks a unified address's best receiver: second-generation shielded,
/// else first-generation shielded, else transparent.
fn find_best_receiver(items: &Vec<Receiver>) -> (r: Option<Receiver>)
    ensures
        ({
            let rs = items.deep_view();
            match first_orchard(rs) {
                Some(b) => r matches Some(p) && p@ == RecvV::Orchard(b),
                None => match first_sapling(rs) {
                    Some(b) => r matches Some(p) && p@ == RecvV::Sapling(b),
                    None => match first_transparent(rs) {
                        Some((sh, h)) => r matches Some(p) && p@ == (if sh {
                            RecvV::P2sh(h)
                        } else {
                            RecvV::P2pkh(h)
                        }),
                        None => r is None,
                    },
                },
            }
        }),
{
    let n = items.len();
    let mut i: usize = 0;
    proof {
        assert(items.deep_view().skip(0) =~= items.deep_view());
    }
    while i < n
        invariant
            n == items@.len(),
            i <= n,
            first_orchard(items.deep_view()) == first_orchard(items.deep_view().skip(i as int)),
        decreases n - i,
    {
        proof {
            assert(items.deep_view().skip(i as int).drop_first() =~= items.deep_view().skip(i + 1));
            assert(items.deep_view().skip(i as int)[0] == items@[i as int]@);
        }
        match &items[i] {
            Receiver::Orchard(b) => {
                return Some(Receiver::Orchard(clone_bytes(b)));
            },
            _ => (),
        }
        i = i + 1;
    }
    proof {
        assert(items.deep_view().skip(n as int) =~= Seq::<RecvV>::empty());
    }
    let mut i: usize = 0;
    proof {
        assert(items.deep_view().skip(0) =~= items.deep_view());
    }
    while i < n
        invariant
            n == items@.len(),
            i <= n,
            first_orchard(items.deep_view()) is None,
            first_sapling(items.deep_view()) == first_sapling(items.deep_view().skip(i as int)),
        decreases n - i,
    {
        proof {
            assert(items.deep_view().skip(i as int).drop_first() =~= items.deep_view().skip(i + 1));
            assert(items.deep_view().skip(i as int)[0] == items@[i as int]@);
        }
        match &items[i] {
            Receiver::Sapling(b) => {
                return Some(Receiver::Sapling(clone_bytes(b)));
            },
            _ => (),
        }
        i = i + 1;
    }
    proof {
        assert(items.deep_view().skip(n as int) =~= Seq::<RecvV>::empty());
    }
    let mut i: usize = 0;
    proof {
        assert(items.deep_view().skip(0) =~= items.deep_view());
    }
    while i < n
        invariant
            n == items@.len(),
            i <= n,
            first_orchard(items.deep_view()) is None,
            first_sapling(items.deep_view()) is None,
            first_transparent(items.deep_view()) == first_transparent(
                items.deep_view().skip(i as int),
            ),
        decreases n - i,
    {
        proof {
            assert(items.deep_view().skip(i as int).drop_first() =~= items.deep_view().skip(i + 1));
            assert(items.deep_view().skip(i as int)[0] == items@[i as int]@);
        }
        match &items[i] {
            Receiver::P2pkh(h) => {
                return Some(Receiver::P2pkh(clone_bytes(h)));
            },
            Receiver::P2sh(h) => {
                return Some(Receiver::P2sh(clone_bytes(h)));
            },
            _ => (),
        }
        i = i + 1;
    }
    proof {
        assert(items.deep_view().skip(n as int) =~= Seq::<RecvV>::empty());
    }
    None
}


/// Relies on `TransactionData::from_parts` with the version and consensus
/// branch suggested for the expiry height: assembles the unauthorized
/// transaction form from the per-pool bundles.
#[verifier::external_body]
fn make_unauthorized_tx(
    mainnet: bool,
    height: u32,
    tb: &Option<TBundleUnauth>,
    sb: &Option<SBundleProven>,
    ob: &Option<OBundleUnproven>,
) -> (r: TxDataUnauth)
{
    let h = zcash_protocol::consensus::BlockHeight::from_u32(height);
    let branch = zcash_protocol::consensus::BranchId::for_height(&znet(mainnet), h);
    let version = zcash_primitives::transaction::TxVersion::suggested_for_branch(branch);
    TxDataUnauth(zcash_primitives::transaction::TransactionData::from_parts(
        version,
        branch,
        0,
        h,
        tb.as_ref().map(|b| b.0.clone()),
        None,
        sb.as_ref().map(|b| b.0.clone()),
        ob.as_ref().map(|b| b.0.clone()),
    ))
}

/// Relies on `TransactionData::digest` with the transaction-id digest
/// strategy: the precomputed digest parts for signature hashing.
#[verifier::external_body]
fn tx_digests(tdata: &TxDataUnauth) -> (r: TxDigestsB)
{
    TxDigestsB(tdata.0.digest(zcash_primitives::transaction::txid::TxIdDigester))
}

/// Relies on `zcash_primitives::transaction::sighash::signature_hash` for
/// one transparent input: the consensus-defined 32-byte signature digest.
#[verifier::external_body]
fn transparent_sighash(
    tdata: &TxDataUnauth,
    digests: &TxDigestsB,
    index: usize,
    script: &Vec<u8>,
    value: u64,
) -> (r: Result<Vec<u8>, ()>)
    ensures
        r matches Ok(v) ==> v@.len() == 32,
{
    let spk = zcash_transparent::address::Script(zcash_script::script::Code(script.clone()));
    let tb = tdata.0.transparent_bundle().ok_or(())?;
    let value = Zatoshis::from_u64(value).map_err(|_| ())?;
    let si = zcash_transparent::sighash::SignableInput::from_parts(
        tb, SighashType::ALL, index, &spk, &spk, value,
    ).map_err(|_| ())?;
    let h = zcash_primitives::transaction::sighash::signature_hash(
        &tdata.0,
        &zcash_primitives::transaction::sighash::SignableInput::Transparent(si),
        &digests.0,
    );
    Ok(h.as_ref().to_vec())
}

/// Relies on `signature_hash` for the shielded authorization digest of
/// the transaction.
#[verifier::external_body]
fn shielded_sighash(tdata: &TxDataUnauth, digests: &TxDigestsB) -> (r: Vec<u8>)
    ensures
        r@.len() == 32,
{
    let h = zcash_primitives::transaction::sighash::signature_hash(
        &tdata.0,
        &zcash_primitives::transaction::sighash::SignableInput::Shielded,
        &digests.0,
    );
    h.as_ref().to_vec()
}

/// Whether a DER signature verifies for the digest under the public key.
pub uninterp spec fn secp_verifies(pk: Seq<u8>, digest: Seq<u8>, sig_der: Seq<u8>) -> bool;

/// Relies on secp256k1 ECDSA verification, deterministic in its inputs.
#[verifier::external_body]
fn secp_verify(pk: &Vec<u8>, digest: &Vec<u8>, sig: &Vec<u8>) -> (r: bool)
    requires
        digest@.len() == 32,
    ensures
        r == secp_verifies(pk@, digest@, sig@),
{
    let pk = match secp256k1::PublicKey::from_slice(pk.as_slice()) {
        Ok(pk) => pk,
        Err(_) => return false,
    };
    let sig = match secp256k1::ecdsa::Signature::from_der(sig.as_slice()) {
        Ok(s) => s,
        Err(_) => return false,
    };
    let d: [u8; 32] = digest.as_slice().try_into().unwrap();
    let msg = secp256k1::Message::from_digest(d);
    secp256k1::Secp256k1::verification_only().verify_ecdsa(&msg, &sig, &pk).is_ok()
}

/// The DER signature deterministic ECDSA produces for a digest under a
/// secret key, or nothing for an invalid secret key.
pub uninterp spec fn secp_signature_of(sk: Seq<u8>, digest: Seq<u8>) -> Option<Seq<u8>>;

/// Relies on secp256k1's deterministic ECDSA signing; a produced
/// signature verifies against the public key derived from the secret key.
#[verifier::external_body]
fn secp_sign(sk: &Vec<u8>, digest: &Vec<u8>) -> (r: Option<Vec<u8>>)
    requires
        digest@.len() == 32,
    ensures
        match r {
            Some(s) => secp_signature_of(sk@, digest@) == Some(s@) && (secp_pubkey_of(sk@)
                matches Some(pk) ==> secp_verifies(pk, digest@, s@)),
            None => secp_signature_of(sk@, digest@) is None && secp_pubkey_of(sk@) is None,
        },
{
    let sk = secp256k1::SecretKey::from_slice(sk.as_slice()).ok()?;
    let d: [u8; 32] = digest.as_slice().try_into().unwrap();
    let msg = secp256k1::Message::from_digest(d);
    let secp = secp256k1::Secp256k1::new();
    Some(secp.sign_ecdsa(&msg, &sk).serialize_der().to_vec())
}

/// Relies on `Bundle::prepare_transparent_signatures`,
/// `append_external_signatures` and `finalize_signatures`: attaches
/// externally produced signatures, verifying each against its input's
/// digest and public key, and fails when any input stays unsigned.
#[verifier::external_body]
fn t_apply_signatures(
    tb: TBundleUnauth,
    sighashes: &Vec<Vec<u8>>,
    sigs: &Vec<Vec<u8>>,
) -> (r: Result<TBundleAuth, ()>)
{
    let secp = Secp256k1::verification_only();
    let parsed = sigs.iter().map(|s| DerSignature::from_der(s)).collect::<Result<Vec<_>, _>>()
        .map_err(|_| ())?;
    let hs: Vec<[u8; 32]> = sighashes.iter().map(|h| h.as_slice().try_into().unwrap_or([0u8; 32])).collect();
    let ctx = tb.0.prepare_transparent_signatures(
        |si| hs.get(*si.index()).copied().unwrap_or([0u8; 32]),
        &secp,
    ).map_err(|_| ())?;
    let ctx = ctx.append_external_signatures(&parsed).map_err(|_| ())?;
    ctx.finalize_signatures().map(TBundleAuth).map_err(|_| ())
}

/// Opaque holder for a fully authorized first-generation shielded bundle.
#[verifier::external_body]
pub struct SBundleAuth(sapling_crypto::Bundle<sapling_crypto::bundle::Authorized, ZatBalance>);

/// Relies on `Bundle::apply_signatures` for a first-generation bundle
/// without shielded spends: computes the binding signature over the
/// shielded digest.
#[verifier::external_body]
fn s_finalize(
    sb: SBundleProven,
    shielded_digest: &Vec<u8>,
    rng: &mut rand_chacha::ChaCha20Rng,
) -> (r: Result<SBundleAuth, ()>)
    requires
        shielded_digest@.len() == 32,
{
    let sighash: [u8; 32] = shielded_digest.as_slice().try_into().unwrap();
    sb.0.apply_signatures(&mut *rng, sighash, &[]).map(SBundleAuth).map_err(|_| ())
}

/// Relies on `TransactionData::freeze` and `Transaction::write`: freezes
/// the authorized transaction and serializes it with its id.
#[verifier::external_body]
fn serialize_authorized(
    mainnet: bool,
    height: u32,
    tb: Option<TBundleAuth>,
    sb: Option<SBundleAuth>,
) -> (r: Result<TxBytes, ()>)
    ensures
        r matches Ok(t) ==> t.data@.len() > 0,
{
    let h = zcash_protocol::consensus::BlockHeight::from_u32(height);
    let branch = zcash_protocol::consensus::BranchId::for_height(&znet(mainnet), h);
    let version = zcash_primitives::transaction::TxVersion::suggested_for_branch(branch);
    let tdata = zcash_primitives::transaction::TransactionData::<
        zcash_primitives::transaction::Authorized,
    >::from_parts(version, branch, 0, h, tb.map(|b| b.0), None, sb.map(|b| b.0), None);
    let tx = tdata.freeze().map_err(|_| ())?;
    let mut bytes = vec![];
    tx.write(&mut bytes).map_err(|_| ())?;
    Ok(TxBytes { txid: tx.txid().to_string(), data: bytes })
}

/// The staged bundles of an assembled, not yet authorized transaction,
/// with the per-input script and value data needed for its digests.
struct AssembledTx {
    tbundle: Option<TBundleUnauth>,
    sbundle: Option<SBundleProven>,
    obundle: Option<OBundleUnproven>,
    scripts: Vec<Vec<u8>>,
    values: Vec<u64>,
}

/// Stages every input and planned output of a partial transaction into
/// the per-pool builders.  Shielded outputs carry the vault's outgoing
/// viewing key so the vault can later recognize its own payments.
fn assemble_bundles(
    mainnet: bool,
    vault: &Vec<u8>,
    ptx: &PartialTx,
    prover: Option<&zcash_proofs::prover::LocalTxProver>,
    rng: &mut rand_chacha::ChaCha20Rng,
) -> (r: Result<AssembledTx, ZcashError>)
    ensures
        match r {
            Ok(a) => {
                &&& is_secp_pubkey(vault@)
                &&& a.scripts@.len() == ptx.inputs@.len()
                &&& a.values@.len() == ptx.inputs@.len()
                &&& forall|i: int|
                    0 <= i < ptx.inputs@.len() ==> (#[trigger] a.values@[i])
                        == ptx.inputs@[i].value
                &&& forall|i: int|
                    0 <= i < ptx.inputs@.len() ==> (#[trigger] a.scripts@[i])@ == hex_decoded(
                        encode_utf8(ptx.inputs@[i].script@),
                    )
                &&& forall|i: int|
                    0 <= i < ptx.outputs@.len() ==> spec_plan_output(
                        mainnet,
                        #[trigger] ptx.outputs@[i]@,
                    ) is Some
            },
            Err(_) => true,
        },
{
    if !crate::addr::secp_pubkey_valid(vault) {
        return Err(ZcashError::InvalidVaultPubkey);
    }
    let ovk_vec = crate::addr::blake2b_ovk(vault);
    let ovk: [u8; 32] = match to_ba(ovk_vec.as_slice()) {
        Ok(a) => a,
        Err(_) => {
            return Err(ZcashError::AssertError("Unreachable".to_owned()));
        },
    };

    let mut tb = t_new();
    let mut scripts: Vec<Vec<u8>> = Vec::new();
    let mut values: Vec<u64> = Vec::new();
    let ni = ptx.inputs.len();
    let mut i: usize = 0;
    while i < ni
        invariant
            ni == ptx.inputs@.len(),
            i <= ni,
            scripts@.len() == i,
            values@.len() == i,
            forall|j: int| 0 <= j < i ==> (#[trigger] values@[j]) == ptx.inputs@[j].value,
            forall|j: int|
                0 <= j < i ==> (#[trigger] scripts@[j])@ == hex_decoded(
                    encode_utf8(ptx.inputs@[j].script@),
                ),
        decreases ni - i,
    {
        let inp = &ptx.inputs[i];
        let txid = match crate::to_hash(inp.txid.as_str()) {
            Ok(h) => h,
            Err(_) => {
                return Err(ZcashError::AssertError("Invalid input txid".to_owned()));
            },
        };
        let script = match decode_hexstring(inp.script.as_str()) {
            Ok(s) => s,
            Err(_) => {
                return Err(ZcashError::AssertError("Invalid input script".to_owned()));
            },
        };
        if t_add_input(&mut tb, vault, &txid, inp.vout, &script, inp.value).is_err() {
            return Err(ZcashError::AssertError("Cannot add input".to_owned()));
        }
        scripts.push(script);
        values.push(inp.value);
        i = i + 1;
    }

    let mut sb = s_new();
    let mut ob = match o_new() {
        Ok(ob) => ob,
        Err(_) => {
            return Err(ZcashError::AssertError("Cannot build bundle".to_owned()));
        },
    };
    let no = ptx.outputs.len();
    let mut j: usize = 0;
    while j < no
        invariant
            no == ptx.outputs@.len(),
            j <= no,
            forall|p: int|
                0 <= p < j ==> spec_plan_output(mainnet, #[trigger] ptx.outputs@[p]@) is Some,
        decreases no - j,
    {
        let planned = plan_output(mainnet, &ptx.outputs[j])?;
        match &planned {
            PlannedOutput::TransparentP2pkh(h, amount, memo) => {
                if h.len() != 20 {
                    return Err(ZcashError::AssertError("Invalid receiver".to_owned()));
                }
                if t_add_output(&mut tb, false, h, *amount).is_err() {
                    return Err(ZcashError::AssertError("Cannot add transparent output".to_owned()));
                }
                match memo {
                    Some(m) => {
                        if t_add_null_data(&mut tb, m).is_err() {
                            return Err(ZcashError::AssertError("Cannot add transparent memo".to_owned()));
                        }
                    },
                    None => (),
                }
            },
            PlannedOutput::TransparentP2sh(h, amount, memo) => {
                if h.len() != 20 {
                    return Err(ZcashError::AssertError("Invalid receiver".to_owned()));
                }
                if t_add_output(&mut tb, true, h, *amount).is_err() {
                    return Err(ZcashError::AssertError("Cannot add transparent output".to_owned()));
                }
                match memo {
                    Some(m) => {
                        if t_add_null_data(&mut tb, m).is_err() {
                            return Err(ZcashError::AssertError("Cannot add transparent memo".to_owned()));
                        }
                    },
                    None => (),
                }
            },
            PlannedOutput::Sapling(b, amount, m) => {
                if b.len() != 43 || m.len() != 512 {
                    return Err(ZcashError::AssertError("Invalid receiver".to_owned()));
                }
                if s_add_output(&mut sb, &ovk, b, *amount, m).is_err() {
                    return Err(ZcashError::AssertError("Cannot add shielded output".to_owned()));
                }
            },
            PlannedOutput::Orchard(b, amount, m) => {
                if b.len() != 43 || m.len() != 512 {
                    return Err(ZcashError::AssertError("Invalid receiver".to_owned()));
                }
                if o_add_output(&mut ob, &ovk, b, *amount, m).is_err() {
                    return Err(ZcashError::AssertError("Cannot add shielded output".to_owned()));
                }
            },
        }
        j = j + 1;
    }

    let tbundle = t_build(tb);
    let sbundle = match s_build_prove(sb, rng, prover) {
        Ok(b) => b,
        Err(_) => {
            return Err(ZcashError::AssertError("Cannot build sapling bundle".to_owned()));
        },
    };
    let obundle = match o_build(ob, rng) {
        Ok(b) => b,
        Err(_) => {
            return Err(ZcashError::AssertError("Cannot build orchard bundle".to_owned()));
        },
    };
    Ok(AssembledTx { tbundle, sbundle, obundle, scripts, values })
}

/// Computes the per-transparent-input signature digests of an assembled
/// transaction.
fn compute_sighashes(atx: &AssembledTx, tdata: &TxDataUnauth, digests: &TxDigestsB) -> (r: Result<
    Sighashes,
    ZcashError,
>)
    requires
        atx.values@.len() == atx.scripts@.len(),
    ensures
        match r {
            Ok(s) => s.hashes@.len() == atx.scripts@.len() && forall|i: int|
                0 <= i < s.hashes@.len() ==> (#[trigger] s.hashes@[i])@.len() == 32,
            Err(_) => true,
        },
{
    let mut hashes: Vec<Vec<u8>> = Vec::new();
    let n = atx.scripts.len();
    let mut i: usize = 0;
    while i < n
        invariant
            n == atx.scripts@.len(),
            atx.values@.len() == n,
            i <= n,
            hashes@.len() == i,
            forall|j: int| 0 <= j < i ==> (#[trigger] hashes@[j])@.len() == 32,
        decreases n - i,
    {
        match transparent_sighash(tdata, digests, i, &atx.scripts[i], atx.values[i]) {
            Ok(h) => {
                hashes.push(h);
            },
            Err(_) => {
                return Err(ZcashError::AssertError("Cannot compute digest".to_owned()));
            },
        }
        i = i + 1;
    }
    Ok(Sighashes { hashes })
}

/// Builds the unauthorized transaction for a partial-transaction plan and
/// produces one signature digest per transparent input, in input order,
/// for the external signer.  The plan's stored seed drives all builder
/// randomness, so a retry over the same plan reproduces the same digests.
pub fn build_vault_unauthorized_tx(
    mainnet: bool,
    vault: Vec<u8>,
    ptx: &PartialTx,
    prover: Option<&zcash_proofs::prover::LocalTxProver>,
) -> (r: Result<Sighashes, ZcashError>)
    ensures
        match r {
            Ok(s) => {
                &&& is_secp_pubkey(vault@)
                &&& ptx.tx_seed@.len() == 32
                &&& s.hashes@.len() == ptx.inputs@.len()
                &&& forall|i: int|
                    0 <= i < s.hashes@.len() ==> (#[trigger] s.hashes@[i])@.len() == 32
                &&& forall|i: int|
                    0 <= i < ptx.outputs@.len() ==> spec_plan_output(
                        mainnet,
                        #[trigger] ptx.outputs@[i]@,
                    ) is Some
            },
            Err(_) => true,
        },
        !is_secp_pubkey(vault@) ==> (r matches Err(e) && e is InvalidVaultPubkey),
        is_secp_pubkey(vault@) && ptx.tx_seed@.len() != 32 ==> (r matches Err(e)
            && e is AssertError),
{
    if !crate::addr::secp_pubkey_valid(&vault) {
        return Err(ZcashError::InvalidVaultPubkey);
    }
    let seed = to_ba(ptx.tx_seed.as_slice())?;
    let mut rng = chacha_from_seed(&seed);
    let atx = assemble_bundles(mainnet, &vault, ptx, prover, &mut rng)?;
    let tdata = make_unauthorized_tx(mainnet, ptx.height, &atx.tbundle, &atx.sbundle, &atx.obundle);
    let digests = tx_digests(&tdata);
    compute_sighashes(&atx, &tdata, &digests)
}

/// Signs one signature digest with a transparent secret key.
pub fn sign_sighash(sk: Vec<u8>, sighash: &Vec<u8>) -> (r: Result<Vec<u8>, ZcashError>)
    ensures
        match r {
            Ok(s) => sighash@.len() == 32 && secp_signature_of(sk@, sighash@) == Some(s@) && (
            secp_pubkey_of(sk@) matches Some(pk) ==> secp_verifies(pk, sighash@, s@)),
            Err(_) => sighash@.len() != 32 || secp_signature_of(sk@, sighash@) is None,
        },
{
    if sighash.len() != 32 {
        return Err(ZcashError::AssertError("Invalid digest".to_owned()));
    }
    match secp_sign(&sk, sighash) {
        Some(s) => Ok(s),
        None => Err(ZcashError::AssertError("Cannot parse secret key".to_owned())),
    }
}

/// Recombines externally produced signatures with a partial-transaction
/// plan into the final broadcastable transaction.  The plan is rebuilt
/// from its stored seed; each signature must verify against the digest it
/// answers under the vault key, and the count of signatures, digests and
/// transparent inputs must agree, or the combination is rejected.
pub fn apply_signatures(
    mainnet: bool,
    vault: Vec<u8>,
    ptx: &PartialTx,
    prover: Option<&zcash_proofs::prover::LocalTxProver>,
    digests: &Sighashes,
    signatures: &Vec<Vec<u8>>,
) -> (r: Result<TxBytes, ZcashError>)
    ensures
        match r {
            Ok(t) => {
                &&& is_secp_pubkey(vault@)
                &&& signatures@.len() == ptx.inputs@.len()
                &&& digests.hashes@.len() == signatures@.len()
                &&& forall|i: int|
                    0 <= i < signatures@.len() ==> secp_verifies(
                        vault@,
                        (#[trigger] digests.hashes@[i])@,
                        signatures@[i]@,
                    )
                &&& t.data@.len() > 0
            },
            Err(_) => true,
        },
        signatures@.len() != ptx.inputs@.len() ==> r is Err,
        digests.hashes@.len() != signatures@.len() ==> r is Err,
{
    if signatures.len() != ptx.inputs.len() || digests.hashes.len() != signatures.len() {
        return Err(ZcashError::AssertError(
            "Signature count must match input count".to_owned(),
        ));
    }
    let n = digests.hashes.len();
    let mut i: usize = 0;
    while i < n
        invariant
            n == digests.hashes@.len(),
            signatures@.len() == n,
            i <= n,
            forall|j: int|
                0 <= j < i ==> secp_verifies(
                    vault@,
                    (#[trigger] digests.hashes@[j])@,
                    signatures@[j]@,
                ),
        decreases n - i,
    {
        if digests.hashes[i].len() != 32 {
            return Err(ZcashError::AssertError("Invalid digest".to_owned()));
        }
        if !secp_verify(&vault, &digests.hashes[i], &signatures[i]) {
            return Err(ZcashError::AssertError("Invalid signature".to_owned()));
        }
        i = i + 1;
    }

    let seed = to_ba(ptx.tx_seed.as_slice())?;
    let mut rng = chacha_from_seed(&seed);
    let atx = assemble_bundles(mainnet, &vault, ptx, prover, &mut rng)?;
    if atx.obundle.is_some() {
        // finalizing a second-generation bundle needs its proving key,
        // which stays with the proving capability
        return Err(ZcashError::AssertError(
            "Cannot finalize a second-generation shielded bundle".to_owned(),
        ));
    }
    let tdata = make_unauthorized_tx(mainnet, ptx.height, &atx.tbundle, &atx.sbundle, &atx.obundle);
    let tdigests = tx_digests(&tdata);
    let sighashes = compute_sighashes(&atx, &tdata, &tdigests)?;

    let tbauth = match atx.tbundle {
        Some(tb) => match t_apply_signatures(tb, &sighashes.hashes, signatures) {
            Ok(b) => Some(b),
            Err(_) => {
                return Err(ZcashError::AssertError("Cannot apply signatures".to_owned()));
            },
        },
        None => None,
    };
    let shielded = shielded_sighash(&tdata, &tdigests);
    let sbauth = match atx.sbundle {
        Some(sb) => match s_finalize(sb, &shielded, &mut rng) {
            Ok(b) => Some(b),
            Err(_) => {
                return Err(ZcashError::AssertError("Cannot finalize transaction".to_owned()));
            },
        },
        None => None,
    };
    match serialize_authorized(mainnet, ptx.height, tbauth, sbauth) {
        Ok(t) => Ok(t),
        Err(_) => Err(ZcashError::AssertError("Cannot finalize transaction".to_owned())),
    }
}

/// Builds, signs and finalizes a transparent spend in one step, for a
/// caller that holds the spending key directly: stages the given coins
/// and outputs, signs every input digest with the key, and attaches the
/// signatures.
pub fn pay_with_utxos(
    mainnet: bool,
    expiry_height: u32,
    sk: Vec<u8>,
    utxos: Vec<UTXO>,
    from_addr: String,
    to_addr: String,
    amount: u64,
    change: u64,
    memo: String,
    prover: Option<&zcash_proofs::prover::LocalTxProver>,
) -> (r: Result<TxBytes, ZcashError>)
    ensures
        r is Ok ==> secp_pubkey_of(sk@) is Some,
        r matches Ok(t) ==> t.data@.len() > 0,
        r is Ok ==> spec_plan_output(
            mainnet,
            (OutputV { address: to_addr@, amount: amount, memo: memo@ }),
        ) is Some,
        r is Ok ==> spec_plan_output(
            mainnet,
            (OutputV { address: from_addr@, amount: change, memo: Seq::<char>::empty() }),
        ) is Some,
{
    let pk = match crate::wallet::sk_to_pubkey(&sk) {
        Some(pk) => pk,
        None => {
            return Err(ZcashError::AssertError("Invalid Secret Key".to_owned()));
        },
    };
    let ghost payment_v = OutputV { address: to_addr@, amount: amount, memo: memo@ };
    let ghost change_v = OutputV { address: from_addr@, amount: change, memo: Seq::<char>::empty() };
    let mut outputs: Vec<Output> = Vec::new();
    outputs.push(Output { address: to_addr, amount, memo });
    outputs.push(Output { address: from_addr, amount: change, memo: String::new() });
    proof {
        assert(outputs@[0]@ == payment_v);
        assert(outputs@[1]@ =~= change_v);
    }
    let ptx = PartialTx {
        height: expiry_height,
        inputs: utxos,
        outputs,
        fee: 0,
        tx_seed: random_seed32(),
    };
    let seed = to_ba(ptx.tx_seed.as_slice())?;
    let mut rng = chacha_from_seed(&seed);
    let atx = assemble_bundles(mainnet, &pk, &ptx, prover, &mut rng)?;
    if atx.obundle.is_some() {
        // finalizing a second-generation bundle needs its proving key,
        // which stays with the proving capability
        return Err(ZcashError::AssertError(
            "Cannot finalize a second-generation shielded bundle".to_owned(),
        ));
    }
    let tdata = make_unauthorized_tx(mainnet, ptx.height, &atx.tbundle, &atx.sbundle, &atx.obundle);
    let digests = tx_digests(&tdata);
    let sighashes = compute_sighashes(&atx, &tdata, &digests)?;

    let mut signatures: Vec<Vec<u8>> = Vec::new();
    let n = sighashes.hashes.len();
    let mut i: usize = 0;
    while i < n
        invariant
            n == sighashes.hashes@.len(),
            i <= n,
            signatures@.len() == i,
            forall|j: int| 0 <= j < n ==> (#[trigger] sighashes.hashes@[j])@.len() == 32,
        decreases n - i,
    {
        match secp_sign(&sk, &sighashes.hashes[i]) {
            Some(s) => {
                signatures.push(s);
            },
            None => {
                return Err(ZcashError::AssertError("Invalid Secret Key".to_owned()));
            },
        }
        i = i + 1;
    }

    let tbauth = match atx.tbundle {
        Some(tb) => match t_apply_signatures(tb, &sighashes.hashes, &signatures) {
            Ok(b) => Some(b),
            Err(_) => {
                return Err(ZcashError::AssertError("Cannot apply signatures".to_owned()));
            },
        },
        None => None,
    };
    let shielded = shielded_sighash(&tdata, &digests);
    let sbauth = match atx.sbundle {
        Some(sb) => match s_finalize(sb, &shielded, &mut rng) {
            Ok(b) => Some(b),
            Err(_) => {
                return Err(ZcashError::AssertError("Cannot finalize transaction".to_owned()));
            },
        },
        None => None,
    };
    match serialize_authorized(mainnet, ptx.height, tbauth, sbauth) {
        Ok(t) => Ok(t),
        Err(_) => Err(ZcashError::AssertError("Cannot finalize transaction".to_owned())),
    }
}

/// Pays from an unprivileged, self-held address into the vault: validates
/// the inputs, selects coins under the tiered fee rule, and builds and
/// signs the transaction in one step.  A memo beyond 80 bytes, an
/// undecodable source address, an invalid vault key or amount, or
/// insufficient funds all reject the payment.
pub fn send_to_vault(
    mainnet: bool,
    expiry_height: u32,
    sk: Vec<u8>,
    from: String,
    vault: Vec<u8>,
    amount: u64,
    memo: String,
    utxos: Vec<UTXO>,
    prover: Option<&zcash_proofs::prover::LocalTxProver>,
) -> (r: Result<TxBytes, ZcashError>)
    requires
        sum_values(utxos@, utxos@.len() as int) <= u64::MAX,
    ensures
        r is Ok ==> {
            &&& secp_pubkey_of(sk@) is Some
            &&& crate::addr::spec_address_valid(mainnet, from@)
            &&& is_secp_pubkey(vault@)
            &&& amount <= MAX_MONEY
            &&& encode_utf8(memo@).len() <= 80
        },
        encode_utf8(memo@).len() > 80 && crate::addr::spec_address_valid(mainnet, from@)
            && secp_pubkey_of(sk@) is Some && is_secp_pubkey(vault@) && amount <= MAX_MONEY ==> r
            is Err,
        sum_values(utxos@, utxos@.len() as int) < amount + spec_num_touts(
            encode_utf8(memo@).len(),
        ) * 5000 ==> r is Err,
        r matches Ok(t) ==> t.data@.len() > 0,
        r is Ok ==> (exists|k: int|
            1 <= k <= utxos@.len() && #[trigger] covers(
                utxos@,
                amount,
                spec_num_touts(encode_utf8(memo@).len()),
                k,
            ) && forall|j: int|
                1 <= j < k ==> !covers(utxos@, amount, spec_num_touts(encode_utf8(memo@).len()), j)),
        r is Ok ==> spec_plan_output(
            mainnet,
            (OutputV { address: spec_vault_address(mainnet, vault@), amount: amount, memo: memo@ }),
        ) is Some,
{
    if crate::wallet::sk_to_pubkey(&sk).is_none() {
        return Err(ZcashError::AssertError("Invalid Secret Key".to_owned()));
    }
    let valid = validate_address_checked(mainnet, &from)?;
    if !valid {
        return Err(ZcashError::InvalidAddress(from));
    }
    let to_addr = get_vault_address(mainnet, clone_bytes(&vault))?;
    if amount > MAX_MONEY {
        return Err(ZcashError::AssertError("Invalid amount".to_owned()));
    }
    validate_transparent_memo(memo.as_str())?;
    let ms = memo.as_str();
    proof {
        assert(ms.spec_bytes() == encode_utf8(memo@));
    }
    let (inputs, change, _) = crate::fee::select_utxos(&utxos, amount, ms)?;
    let ghost k = inputs@.len() as int;
    pay_with_utxos(mainnet, expiry_height, sk, inputs, from, to_addr, amount, change, memo, prover)
}

/// Checks an address against the network's rules, as a plain result.
fn validate_address_checked(mainnet: bool, address: &String) -> (r: Result<bool, ZcashError>)
    ensures
        r matches Ok(b) && b == crate::addr::spec_address_valid(mainnet, address@),
{
    crate::addr::validate_address(mainnet, address.clone())
}

/// Plans a payment out of the vault: selects coins under the tiered fee
/// rule, pairs the payment output with the vault's change output, and
/// draws the plan's builder seed once, to be reused by every later pass.
pub fn pay_from_vault(
    mainnet: bool,
    height: u32,
    vault: Vec<u8>,
    to: String,
    amount: u64,
    memo: String,
    utxos: Vec<UTXO>,
) -> (r: Result<PartialTx, ZcashError>)
    requires
        sum_values(utxos@, utxos@.len() as int) <= u64::MAX,
    ensures
        ({
            let touts = spec_num_touts(encode_utf8(memo@).len());
            match r {
                Ok(p) => {
                    let k = p.inputs@.len() as int;
                    &&& is_secp_pubkey(vault@)
                    &&& p.height == height
                    &&& p.tx_seed@.len() == 32
                    &&& 1 <= k <= utxos@.len()
                    &&& p.inputs@ == utxos@.subrange(0, k)
                    &&& covers(utxos@, amount, touts, k)
                    &&& forall|j: int| 1 <= j < k ==> !covers(utxos@, amount, touts, j)
                    &&& p.fee == spec_fee(k as nat, touts)
                    &&& p.outputs@.len() == 2
                    &&& p.outputs@[0].address@ == to@
                    &&& p.outputs@[0].amount == amount
                    &&& p.outputs@[0].memo@ == memo@
                    &&& p.outputs@[1].address@ == spec_vault_address(mainnet, vault@)
                    &&& p.outputs@[1].memo@ == Seq::<char>::empty()
                    &&& amount + p.fee + p.outputs@[1].amount == sum_values(utxos@, k)
                },
                Err(e) => {
                    ||| !is_secp_pubkey(vault@)
                    ||| forall|j: int|
                        1 <= j <= utxos@.len() ==> !covers(utxos@, amount, touts, j)
                },
            }
        }),
{
    let from = get_vault_address(mainnet, clone_bytes(&vault))?;
    let ms = memo.as_str();
    proof {
        assert(ms.spec_bytes() == encode_utf8(memo@));
    }
    let (inputs, change, fee) = crate::fee::select_utxos(&utxos, amount, ms)?;
    let mut outputs: Vec<Output> = Vec::new();
    outputs.push(Output { address: to, amount, memo });
    outputs.push(Output { address: from, amount: change, memo: String::new() });
    let tx_seed = random_seed32();
    Ok(PartialTx { height, inputs, outputs, fee, tx_seed })
}

/// Plans a consolidation of the vault's coins into a single payment back
/// to the vault address: every coin is spent, the fee is one tier step
/// per input, and the rest returns to the vault.
pub fn combine_vault_utxos(mainnet: bool, height: u32, vault: Vec<u8>, utxos: Vec<UTXO>) -> (r:
    Result<PartialTx, ZcashError>)
    requires
        sum_values(utxos@, utxos@.len() as int) <= u64::MAX,
    ensures
        match r {
            Ok(p) => {
                &&& is_secp_pubkey(vault@)
                &&& utxos@.len() * 5000 <= sum_values(utxos@, utxos@.len() as int)
                &&& p.height == height
                &&& p.tx_seed@.len() == 32
                &&& p.inputs@ == utxos@
                &&& p.fee == utxos@.len() * 5000
                &&& p.outputs@.len() == 1
                &&& p.outputs@[0].address@ == spec_vault_address(mainnet, vault@)
                &&& p.outputs@[0].amount + p.fee == sum_values(utxos@, utxos@.len() as int)
                &&& p.outputs@[0].memo@ == Seq::<char>::empty()
            },
            Err(e) => if !is_secp_pubkey(vault@) {
                e is InvalidVaultPubkey
            } else {
                sum_values(utxos@, utxos@.len() as int) < utxos@.len() * 5000
                    && e is NotEnoughFunds
            },
        },
{
    let from = get_vault_address(mainnet, clone_bytes(&vault))?;
    let n = utxos.len();
    let mut total: u64 = 0;
    let mut i: usize = 0;
    while i < n
        invariant
            n == utxos@.len(),
            i <= n,
            sum_values(utxos@, n as int) <= u64::MAX,
            total == sum_values(utxos@, i as int),
        decreases n - i,
    {
        proof {
            crate::fee::lemma_sum_values_monotonic(utxos@, i + 1, n as int);
        }
        total = total + utxos[i].value;
        i = i + 1;
    }
    let fee_u128: u128 = (n as u128) * 5000;
    // the consolidated coins must at least cover their own fee
    if (total as u128) < fee_u128 {
        return Err(ZcashError::NotEnoughFunds);
    }
    let fee: u64 = fee_u128 as u64;
    let amount = total - fee;
    let mut outputs: Vec<Output> = Vec::new();
    outputs.push(Output { address: from, amount, memo: String::new() });
    let tx_seed = random_seed32();
    Ok(PartialTx { height, inputs: utxos, outputs, fee, tx_seed })
}

} // verus!
