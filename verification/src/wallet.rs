//! Coin and key records for the vault's transparent pool, and derivation
//! of a transparent key triple from an encoded secret key.
use vstd::prelude::*;

use crate::addr::{encode_transparent_pkh, encoded_transparent_of, ripemd160, ripemd160_of, sha256, sha256_of};
use crate::ZcashError;

verus! {

/// An unspent transparent output owned by some address.  Immutable once
/// observed; consumed once selected as an input.
pub struct UTXO {
    pub txid: String,
    pub height: u32,
    pub vout: u32,
    pub script: String,
    pub value: u64,
}

impl Clone for UTXO {
    fn clone(&self) -> (r: Self)
        ensures
            r == *self,
    {
        UTXO {
            txid: self.txid.clone(),
            height: self.height,
            vout: self.vout,
            script: self.script.clone(),
            value: self.value,
        }
    }
}

/// A transparent secret key with its derived public key and address.
pub struct TransparentKey {
    pub sk: Vec<u8>,
    pub pk: Vec<u8>,
    pub addr: String,
}


/// The payload a base58-with-checksum string carries: its version byte and
/// its data, or nothing for a malformed string.
pub uninterp spec fn base58check_of(s: Seq<char>) -> Option<(u8, Seq<u8>)>;

/// Relies on `base58check::FromBase58Check`: deterministic decoding with
/// checksum validation.
#[verifier::external_body]
fn base58check_decode(s: &str) -> (r: Option<(u8, Vec<u8>)>)
    ensures
        match r {
            Some(p) => base58check_of(s@) == Some((p.0, p.1@)),
            None => base58check_of(s@) is None,
        },
{
    base58check::FromBase58Check::from_base58check(s).ok()
}

/// The compressed public key derived from a secret key, or nothing for an
/// invalid secret key.
pub uninterp spec fn secp_pubkey_of(sk: Seq<u8>) -> Option<Seq<u8>>;

/// Relies on `secp256k1::PublicKey::from_secret_key`: deterministic
/// derivation of the 33-byte compressed public key.
#[verifier::external_body]
pub(crate) fn sk_to_pubkey(sk: &Vec<u8>) -> (r: Option<Vec<u8>>)
    ensures
        match r {
            Some(pk) => secp_pubkey_of(sk@) == Some(pk@) && pk@.len() == 33,
            None => secp_pubkey_of(sk@) is None,
        },
{
    let sk = secp256k1::SecretKey::from_slice(sk.as_slice()).ok()?;
    let secp = secp256k1::Secp256k1::new();
    Some(secp256k1::PublicKey::from_secret_key(&secp, &sk).serialize().to_vec())
}

/// Decodes an encoded transparent secret key and derives its public key
/// and receiving address.  The encoded payload carries the secret key
/// followed by a one-byte compressed-key marker.
pub fn sk_to_pub(mainnet: bool, wif: String) -> (r: Result<TransparentKey, ZcashError>)
    ensures
        match r {
            Ok(tk) => {
                &&& base58check_of(wif@) matches Some(p) && p.1.len() >= 1 && tk.sk@ == p.1.take(
                    p.1.len() - 1,
                )
                &&& secp_pubkey_of(tk.sk@) == Some(tk.pk@)
                &&& tk.addr@ == encoded_transparent_of(
                    mainnet,
                    ripemd160_of(sha256_of(tk.pk@)),
                )
            },
            Err(_) => {
                ||| base58check_of(wif@) is None
                ||| (base58check_of(wif@) matches Some(p) && (p.1.len() == 0 || secp_pubkey_of(
                    p.1.take(p.1.len() - 1),
                ) is None))
            },
        },
{
    let (_, mut payload) = match base58check_decode(wif.as_str()) {
        Some(p) => p,
        None => {
            return Err(ZcashError::AssertError("Not Base58 Encoded".to_owned()));
        },
    };
    if payload.len() == 0 {
        return Err(ZcashError::AssertError("Cannot parse secret key".to_owned()));
    }
    payload.pop();
    let sk = payload;
    let pk = match sk_to_pubkey(&sk) {
        Some(pk) => pk,
        None => {
            return Err(ZcashError::AssertError("Cannot parse secret key".to_owned()));
        },
    };
    let sha = sha256(&pk);
    let pkh = ripemd160(&sha);
    let addr = encode_transparent_pkh(mainnet, &pkh);
    Ok(TransparentKey { sk, pk, addr })
}

} // verus!
