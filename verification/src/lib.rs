//! Transaction-construction and reconciliation engine for a custodial
//! multi-pool vault wallet.  The vault is controlled by an externally held
//! secp256k1 public key; this crate derives its transparent receiving
//! address and shielded outgoing-viewing key, selects coins and computes
//! fees, plans multi-pool transactions, produces signature digests for
//! split-custody signing, and classifies scanned transactions as vault
//! movements.
use vstd::prelude::*;
use vstd::array::ArrayAdditionalExecFns;
use vstd::string::StringSliceAdditionalSpecFns;

pub mod addr;
pub mod config;
pub mod fee;
pub mod pay;
pub mod rpc;
pub mod scan;
pub mod wallet;

verus! {

/// Errors surfaced by every operation of the engine.  String payloads carry
/// context for the caller; they are never interpreted by the engine itself.
#[derive(Debug, Clone)]
pub enum ZcashError {
    RPC(String),
    InvalidVaultPubkey,
    InvalidAddress(String),
    NoOrchardReceiver,
    NotEnoughFunds,
    TxRejected,
    Reorg,
    MismatchAmounts,
    UnequalTMemo,
    AssertError(String),
}

impl ZcashError {
    /// Whether the caller may retry the operation unchanged: transport
    /// failures and chain reorganizations are transient, and the caller
    /// should rewind its cursor and try again; every other failure is
    /// terminal.
    pub fn is_retryable(&self) -> (r: bool)
        ensures
            r == (self is RPC || self is Reorg),
    {
        match self {
            ZcashError::RPC(_) => true,
            ZcashError::Reorg => true,
            _ => false,
        }
    }
}

/// A block height together with the hash of the block at that height.
pub struct Height {
    pub number: u32,
    pub hash: Vec<u8>,
}

/// An ASCII byte that is a hexadecimal digit.
pub open spec fn is_hex_digit_byte(b: u8) -> bool {
    (48 <= b <= 57) || (97 <= b <= 102) || (65 <= b <= 70)
}

/// Numeric value of a hexadecimal digit byte.
pub open spec fn hex_digit_value(b: u8) -> u8 {
    if 48 <= b <= 57 {
        (b - 48) as u8
    } else if 97 <= b <= 102 {
        (b - 87) as u8
    } else {
        (b - 55) as u8
    }
}

/// A byte sequence that is a well-formed hexadecimal encoding: even length,
/// hexadecimal digits throughout.
pub open spec fn is_hex_bytes(s: Seq<u8>) -> bool {
    s.len() % 2 == 0 && forall|i: int| 0 <= i < s.len() ==> is_hex_digit_byte(s[i])
}

/// The bytes denoted by a hexadecimal digit sequence, two digits per byte,
/// most significant digit first.
pub open spec fn hex_decoded(s: Seq<u8>) -> Seq<u8>
    decreases s.len(),
{
    if s.len() < 2 {
        Seq::empty()
    } else {
        seq![(hex_digit_value(s[0]) * 16 + hex_digit_value(s[1])) as u8] + hex_decoded(s.skip(2))
    }
}

proof fn lemma_hex_decoded_concat(a: Seq<u8>, b: Seq<u8>)
    requires
        a.len() % 2 == 0,
    ensures
        hex_decoded(a + b) == hex_decoded(a) + hex_decoded(b),
    decreases a.len(),
{
    if a.len() == 0 {
        assert(a + b =~= b);
        assert(hex_decoded(a) + hex_decoded(b) =~= hex_decoded(b));
    } else {
        assert((a + b).skip(2) =~= a.skip(2) + b);
        lemma_hex_decoded_concat(a.skip(2), b);
        assert(hex_decoded(a + b) =~= hex_decoded(a) + hex_decoded(b));
    }
}

fn hex_digit_of(b: u8) -> (r: Option<u8>)
    ensures
        match r {
            Some(v) => is_hex_digit_byte(b) && v == hex_digit_value(b),
            None => !is_hex_digit_byte(b),
        },
{
    if 48 <= b && b <= 57 {
        Some(b - 48)
    } else if 97 <= b && b <= 102 {
        Some(b - 87)
    } else if 65 <= b && b <= 70 {
        Some(b - 55)
    } else {
        None
    }
}

/// Decodes a hexadecimal string into its bytes; rejects strings of odd
/// length or with a non-hexadecimal character.
pub fn decode_hexstring(s: &str) -> (r: Result<Vec<u8>, ZcashError>)
    ensures
        match r {
            Ok(v) => is_hex_bytes(s.spec_bytes()) && v@ == hex_decoded(s.spec_bytes()),
            Err(e) => !is_hex_bytes(s.spec_bytes()) && (e matches ZcashError::AssertError(m)
                && m@ == "Invalid Hex string"@),
        },
{
    decode_hex_bytes(s.as_bytes())
}

/// Decodes a sequence of hexadecimal digit bytes; rejects input of odd
/// length or with a non-digit byte.
pub fn decode_hex_bytes(bytes: &[u8]) -> (r: Result<Vec<u8>, ZcashError>)
    ensures
        match r {
            Ok(v) => is_hex_bytes(bytes@) && v@ == hex_decoded(bytes@),
            Err(e) => !is_hex_bytes(bytes@) && (e matches ZcashError::AssertError(m)
                && m@ == "Invalid Hex string"@),
        },
{
    if bytes.len() % 2 != 0 {
        return Err(ZcashError::AssertError("Invalid Hex string".to_owned()));
    }
    let mut out: Vec<u8> = Vec::new();
    let mut i: usize = 0;
    while i < bytes.len()
        invariant
            bytes@.len() % 2 == 0,
            i % 2 == 0,
            i <= bytes@.len(),
            forall|j: int| 0 <= j < i ==> is_hex_digit_byte(bytes@[j]),
            out@ == hex_decoded(bytes@.take(i as int)),
        decreases bytes@.len() - i,
    {
        let hi = match hex_digit_of(bytes[i]) {
            Some(v) => v,
            None => {
                return Err(ZcashError::AssertError("Invalid Hex string".to_owned()));
            },
        };
        let lo = match hex_digit_of(bytes[i + 1]) {
            Some(v) => v,
            None => {
                return Err(ZcashError::AssertError("Invalid Hex string".to_owned()));
            },
        };
        out.push(hi * 16 + lo);
        proof {
            let pair = bytes@.subrange(i as int, i + 2);
            lemma_hex_decoded_concat(bytes@.take(i as int), pair);
            assert(bytes@.take(i as int) + pair =~= bytes@.take(i + 2));
            assert(hex_decoded(pair.skip(2)) == Seq::<u8>::empty());
            assert(hex_decoded(pair) =~= seq![(hex_digit_value(pair[0]) * 16 + hex_digit_value(
                pair[1],
            )) as u8] + hex_decoded(pair.skip(2)));
            assert(hex_decoded(pair) =~= seq![(hex_digit_value(pair[0]) * 16 + hex_digit_value(
                pair[1],
            )) as u8]);
        }
        i = i + 2;
    }
    proof {
        assert(bytes@.take(i as int) =~= bytes@);
    }
    Ok(out)
}

/// Copies a byte vector.
pub fn clone_bytes(v: &Vec<u8>) -> (r: Vec<u8>)
    ensures
        r@ == v@,
{
    let mut r: Vec<u8> = Vec::new();
    let n = v.len();
    let mut i: usize = 0;
    while i < n
        invariant
            n == v@.len(),
            i <= n,
            r@ =~= v@.take(i as int),
        decreases n - i,
    {
        r.push(v[i]);
        i = i + 1;
    }
    proof {
        assert(v@.take(n as int) =~= v@);
    }
    r
}

/// Compares two strings for equality of their character sequences.
pub fn str_eq(a: &str, b: &str) -> (r: bool)
    ensures
        r == (a@ == b@),
{
    let ab = a.as_bytes();
    let bb = b.as_bytes();
    if ab.len() != bb.len() {
        return false;
    }
    let n = ab.len();
    let mut i: usize = 0;
    while i < n
        invariant
            ab@ == a.spec_bytes(),
            bb@ == b.spec_bytes(),
            n == ab@.len(),
            n == bb@.len(),
            i <= n,
            forall|j: int| 0 <= j < i ==> ab@[j] == bb@[j],
        decreases n - i,
    {
        if ab[i] != bb[i] {
            return false;
        }
        i = i + 1;
    }
    proof {
        assert(a.spec_bytes() =~= b.spec_bytes());
        vstd::utf8::encode_utf8_decode_utf8(a@);
        vstd::utf8::encode_utf8_decode_utf8(b@);
    }
    true
}

/// Copies a slice of exactly 32 bytes into a fixed array; any other length
/// is rejected.
pub fn to_ba(v: &[u8]) -> (r: Result<[u8; 32], ZcashError>)
    ensures
        match r {
            Ok(a) => v@.len() == 32 && a@ == v@,
            Err(e) => v@.len() != 32 && (e matches ZcashError::AssertError(m) && m@ == ""@),
        },
{
    if v.len() != 32 {
        return Err(ZcashError::AssertError("".to_owned()));
    }
    let mut a: [u8; 32] = [0u8; 32];
    let mut i: usize = 0;
    while i < 32
        invariant
            i <= 32,
            v@.len() == 32,
            a@.len() == 32,
            forall|j: int| 0 <= j < i ==> a@[j] == v@[j],
        decreases 32 - i,
    {
        a.set(i, v[i]);
        i = i + 1;
    }
    proof {
        assert(a@ =~= v@);
    }
    Ok(a)
}

/// Decodes a hexadecimal transaction or block hash into its 32 raw bytes,
/// reversing the displayed byte order into the internal one.
pub fn to_hash(s: &str) -> (r: Result<[u8; 32], ZcashError>)
    ensures
        match r {
            Ok(a) => is_hex_bytes(s.spec_bytes()) && hex_decoded(s.spec_bytes()).len() == 32
                && a@ == hex_decoded(s.spec_bytes()).reverse(),
            Err(e) => (!is_hex_bytes(s.spec_bytes()) || hex_decoded(s.spec_bytes()).len() != 32)
                && e is AssertError,
        },
{
    let v = decode_hexstring(s)?;
    let mut rev: Vec<u8> = Vec::new();
    let n = v.len();
    let mut i: usize = 0;
    while i < n
        invariant
            n == v@.len(),
            i <= n,
            rev@.len() == i,
            forall|j: int| 0 <= j < i ==> rev@[j] == v@[n - 1 - j],
        decreases n - i,
    {
        rev.push(v[n - 1 - i]);
        i = i + 1;
    }
    proof {
        assert(rev@ =~= v@.reverse());
    }
    to_ba(rev.as_slice())
}

/// Decodes a hexadecimal string into 32 bytes kept in displayed order.
pub fn to_uhash(s: &str) -> (r: Result<[u8; 32], ZcashError>)
    ensures
        match r {
            Ok(a) => is_hex_bytes(s.spec_bytes()) && hex_decoded(s.spec_bytes()).len() == 32
                && a@ == hex_decoded(s.spec_bytes()),
            Err(e) => (!is_hex_bytes(s.spec_bytes()) || hex_decoded(s.spec_bytes()).len() != 32)
                && e is AssertError,
        },
{
    let v = decode_hexstring(s)?;
    to_ba(v.as_slice())
}

} // verus!
