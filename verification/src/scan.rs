//! Chain and mempool scanning records, and classification of decrypted
//! transactions as vault movements with a single counterparty.
use vstd::prelude::*;
use vstd::utf8::encode_utf8;

use orchard::keys::OutgoingViewingKey as OrchardOvk;
use orchard::note::ExtractedNoteCommitment as OrchardCmx;
use orchard::note::Nullifier;
use orchard::note::TransmittedNoteCiphertext;
use orchard::note_encryption::OrchardDomain;
use orchard::primitives::redpallas::SpendAuth;
use orchard::primitives::redpallas::VerificationKey;
use orchard::value::ValueCommitment as OrchardCv;
use sapling_crypto::bundle::OutputDescription;
use sapling_crypto::keys::OutgoingViewingKey as SaplingOvk;
use sapling_crypto::note::ExtractedNoteCommitment as SaplingCmu;
use sapling_crypto::note_encryption::SaplingDomain;
use sapling_crypto::note_encryption::Zip212Enforcement;
use sapling_crypto::value::ValueCommitment as SaplingCv;
use zcash_keys::address::Address as ZAddress;
use zcash_note_encryption::try_output_recovery_with_ovk;
use zcash_note_encryption::EphemeralKeyBytes;

use crate::pay::Output;
use crate::addr::encode_orchard_ua;
use crate::addr::znet;
use crate::pay::OutputV;
use crate::{decode_hex_bytes, decode_hexstring, hex_decoded, is_hex_bytes, str_eq, to_hash, to_uhash};
use crate::ZcashError;

verus! {

/// A decrypted or resolved note: an address, a signed value, and an
/// optional memo.
pub struct Note {
    pub address: String,
    pub value: i64,
    pub memo: Option<String>,
}

/// A transaction summary with its counterparty and all plain notes.
pub struct TxData {
    pub txid: String,
    pub counterparty: Note,
    pub plain: Vec<Note>,
    pub encrypted: i64,
    pub fee: u64,
}

/// One entry of an address-indexed mempool delta reply.
pub struct MempoolTxDelta {
    pub address: String,
    pub txid: String,
    pub vout: u32,
    pub value: i64,
    pub timestamp: u32,
    pub prevtxid: Option<String>,
    pub prevout: Option<u32>,
}

/// A transparent input reference: the funding transaction and output index.
pub struct TIn {
    pub txid: String,
    pub vout: u32,
}

/// The decoded script of a transparent output as the node reports it.
pub struct ScriptPubKey {
    pub addresses: Option<Vec<String>>,
    pub script_asm: String,
    pub script_type: String,
}

/// A transparent output as the node reports it, before interpretation.
pub struct TRawOut {
    pub vout: u32,
    pub script: ScriptPubKey,
    pub value: u64,
}

/// An interpreted transparent output: its address and value, or a carried
/// memo for a data-only output.
pub struct TOut {
    pub address: String,
    pub value: u64,
    pub memo: Option<String>,
}

impl Clone for TOut {
    fn clone(&self) -> (r: Self)
        ensures
            r == *self,
    {
        TOut {
            address: self.address.clone(),
            value: self.value,
            memo: match &self.memo {
                Some(m) => Some(m.clone()),
                None => None,
            },
        }
    }
}

/// A shielded output of the first generation, fields hexadecimal as the
/// node reports them.
pub struct SOut {
    pub cv: String,
    pub cmu: String,
    pub epk: String,
    pub enc: String,
    pub out: String,
}

/// The second-generation shielded bundle of a transaction.
pub struct Orchard {
    pub actions: Vec<Action>,
}

/// A second-generation shielded action, fields hexadecimal as the node
/// reports them.
pub struct Action {
    pub cv: String,
    pub cmx: String,
    pub rho: String,
    pub rk: String,
    pub epk: String,
    pub enc: String,
    pub out: String,
}

/// A raw transaction as fetched from the node.
pub struct RawVaultTx {
    pub txid: String,
    pub tins: Vec<TIn>,
    pub touts: Vec<TRawOut>,
    pub souts: Vec<SOut>,
    pub orchard: Orchard,
}

/// A fetched transaction with its interpreted transparent outputs and the
/// provenance of its inputs once resolved.
pub struct VaultTxDetails {
    pub txid: String,
    pub tins: Vec<TIn>,
    pub ptouts: Vec<TOut>,
    pub touts: Vec<TOut>,
    pub souts: Vec<SOut>,
    pub actions: Vec<Action>,
}

/// Direction of a vault movement.
#[derive(Debug)]
pub enum Direction {
    Incoming,
    Outgoing,
}

/// A classified vault movement: one counterparty, one direction.
#[derive(Debug)]
pub struct VaultTx {
    pub height: u32,
    pub txid: String,
    pub counterparty: Output,
    pub direction: Direction,
}

/// A transaction after input resolution and trial decryption: resolved
/// input provenance and all outputs readable by the vault.
pub struct VaultTxDecrypted {
    pub txid: String,
    pub ptouts: Vec<TOut>,
    pub outputs: Vec<Output>,
}

/// The result of scanning one block range.
pub struct BlockTxs {
    pub start_hash: String,
    pub end_hash: String,
    pub start_height: u32,
    pub end_height: u32,
    pub txs: Vec<VaultTx>,
}

/// Total value of the first `k` resolved inputs whose address is the vault
/// address.
pub open spec fn spec_vault_spent(s: Seq<TOut>, vault: Seq<char>, k: int) -> int
    decreases k,
{
    if k <= 0 {
        0
    } else {
        spec_vault_spent(s, vault, k - 1) + if s[k - 1].address@ == vault {
            s[k - 1].value as int
        } else {
            0int
        }
    }
}

/// An output paying a positive amount to an address other than the vault's.
pub open spec fn is_external_payment(o: Output, vault: Seq<char>) -> bool {
    o.address@ != vault && o.amount > 0
}

/// An output paying a positive amount to the vault's address.
pub open spec fn is_vault_payment(o: Output, vault: Seq<char>) -> bool {
    o.address@ == vault && o.amount > 0
}

/// The outputs paying a positive amount to an address other than the
/// vault's, in order.
pub open spec fn external_payments(s: Seq<Output>, vault: Seq<char>) -> Seq<Output>
    decreases s.len(),
{
    if s.len() == 0 {
        Seq::empty()
    } else {
        let rest = external_payments(s.drop_last(), vault);
        if is_external_payment(s.last(), vault) {
            rest.push(s.last())
        } else {
            rest
        }
    }
}

/// The outputs paying a positive amount to the vault's address, in order.
pub open spec fn vault_payments(s: Seq<Output>, vault: Seq<char>) -> Seq<Output>
    decreases s.len(),
{
    if s.len() == 0 {
        Seq::empty()
    } else {
        let rest = vault_payments(s.drop_last(), vault);
        if is_vault_payment(s.last(), vault) {
            rest.push(s.last())
        } else {
            rest
        }
    }
}

/// Total amount of a list of outputs.
pub open spec fn sum_amounts(s: Seq<Output>) -> int
    decreases s.len(),
{
    if s.len() == 0 {
        0
    } else {
        sum_amounts(s.drop_last()) + s.last().amount
    }
}

proof fn lemma_sum_amounts_nonneg(s: Seq<Output>)
    ensures
        sum_amounts(s) >= 0,
    decreases s.len(),
{
    if s.len() > 0 {
        lemma_sum_amounts_nonneg(s.drop_last());
    }
}

proof fn lemma_vault_payments_len(s: Seq<Output>, vault: Seq<char>)
    ensures
        vault_payments(s, vault).len() <= s.len(),
    decreases s.len(),
{
    if s.len() > 0 {
        lemma_vault_payments_len(s.drop_last(), vault);
    }
}

proof fn lemma_vault_spent_monotonic(s: Seq<TOut>, vault: Seq<char>, j: int, k: int)
    requires
        0 <= j <= k,
    ensures
        spec_vault_spent(s, vault, j) <= spec_vault_spent(s, vault, k),
    decreases k - j,
{
    if j < k {
        lemma_vault_spent_monotonic(s, vault, j, k - 1);
    }
}

proof fn lemma_vault_received_prefix(s: Seq<Output>, vault: Seq<char>, j: int)
    requires
        0 <= j <= s.len(),
    ensures
        sum_amounts(vault_payments(s.take(j), vault)) <= sum_amounts(vault_payments(s, vault)),
    decreases s.len() - j,
{
    if j < s.len() {
        assert(s.take(j + 1).drop_last() =~= s.take(j));
        assert(s.take(j + 1).last() == s[j]);
        lemma_sum_amounts_nonneg(vault_payments(s.take(j), vault));
        let upper = vault_payments(s.take(j + 1), vault);
        if is_vault_payment(s[j], vault) {
            assert(upper.drop_last() =~= vault_payments(s.take(j), vault));
        }
        lemma_vault_received_prefix(s, vault, j + 1);
        assert(s.take(s.len() as int) =~= s);
    } else {
        assert(s.take(j) =~= s);
    }
}


/// A transaction that spends one vault coin and pays one external output
/// is an outgoing payment to exactly that output: its vault-input total
/// is positive and the external payment set holds the output alone, so
/// classification yields it as the counterparty.
pub proof fn lemma_outgoing_single_counterparty(pt: TOut, o: Output, vault: Seq<char>)
    requires
        pt.address@ == vault,
        pt.value > 0,
        o.address@ != vault,
        o.amount > 0,
    ensures
        spec_vault_spent(seq![pt], vault, 1) > 0,
        external_payments(seq![o], vault) =~= seq![o],
        external_payments(seq![o], vault).len() == 1,
{
    assert(seq![pt][0] == pt);
    assert(spec_vault_spent(seq![pt], vault, 1) == spec_vault_spent(seq![pt], vault, 0)
        + pt.value);
    assert(external_payments(Seq::<Output>::empty(), vault) =~= Seq::<Output>::empty());
    assert(seq![o].drop_last() =~= Seq::<Output>::empty());
    assert(seq![o].last() == o);
    assert(external_payments(seq![o], vault) =~= Seq::<Output>::empty().push(o));
    assert(Seq::<Output>::empty().push(o) =~= seq![o]);
}

/// A transaction with no vault input and two vault payments is an
/// incoming payment whose counterparty amount aggregates both: the spent
/// total is zero and the vault payment set holds exactly the two outputs,
/// so classification reports their sum.
pub proof fn lemma_incoming_aggregates(o1: Output, o2: Output, vault: Seq<char>)
    requires
        o1.address@ == vault,
        o1.amount > 0,
        o2.address@ == vault,
        o2.amount > 0,
    ensures
        spec_vault_spent(Seq::<TOut>::empty(), vault, 0) == 0,
        vault_payments(seq![o1, o2], vault) =~= seq![o1, o2],
        sum_amounts(vault_payments(seq![o1, o2], vault)) == o1.amount + o2.amount,
{
    let s = seq![o1, o2];
    assert(s.drop_last() =~= seq![o1]);
    assert(s.last() == o2);
    assert(seq![o1].drop_last() =~= Seq::<Output>::empty());
    assert(seq![o1].last() == o1);
    assert(vault_payments(Seq::<Output>::empty(), vault) =~= Seq::<Output>::empty());
    assert(vault_payments(seq![o1], vault) =~= Seq::<Output>::empty().push(o1));
    assert(Seq::<Output>::empty().push(o1) =~= seq![o1]);
    assert(vault_payments(seq![o1], vault) =~= seq![o1]);
    assert(vault_payments(s, vault) =~= seq![o1].push(o2));
    assert(seq![o1].push(o2) =~= seq![o1, o2]);
    let vp = vault_payments(s, vault);
    assert(vp.drop_last() =~= seq![o1]);
    assert(vp.last() == o2);
    assert(sum_amounts(vp) == sum_amounts(seq![o1]) + o2.amount);
    assert(sum_amounts(seq![o1]) == sum_amounts(Seq::<Output>::empty()) + o1.amount);
    assert(sum_amounts(Seq::<Output>::empty()) == 0);
}

/// Classifies a resolved, decrypted transaction as a vault movement.
///
/// A transaction that spends any vault input is outgoing and must pay
/// exactly one external output, its counterparty.  A transaction with no
/// vault input is incoming: it must pay the vault at least once; the
/// counterparty aggregates those payments, carries the first one's memo,
/// and takes the first resolved input's address, or no address when every
/// source is shielded.
impl VaultTx {
    pub fn from_decrypted(height: u32, txd: &VaultTxDecrypted, vault_addr: &str) -> (r: Result<
        VaultTx,
        ZcashError,
    >)
        requires
            spec_vault_spent(txd.ptouts@, vault_addr@, txd.ptouts@.len() as int) <= u64::MAX,
            sum_amounts(vault_payments(txd.outputs@, vault_addr@)) <= u64::MAX,
        ensures
            ({
                let spent = spec_vault_spent(txd.ptouts@, vault_addr@, txd.ptouts@.len() as int);
                let ext = external_payments(txd.outputs@, vault_addr@);
                let vp = vault_payments(txd.outputs@, vault_addr@);
                match r {
                    Ok(tx) => {
                        &&& tx.height == height
                        &&& tx.txid@ == txd.txid@
                        &&& if spent > 0 {
                            &&& ext.len() == 1
                            &&& tx.direction is Outgoing
                            &&& tx.counterparty == ext[0]
                        } else {
                            &&& vp.len() >= 1
                            &&& tx.direction is Incoming
                            &&& tx.counterparty.amount == sum_amounts(vp)
                            &&& tx.counterparty.memo@ == vp[0].memo@
                            &&& tx.counterparty.address@ == if txd.ptouts@.len() > 0 {
                                txd.ptouts@[0].address@
                            } else {
                                Seq::<char>::empty()
                            }
                        }
                    },
                    Err(e) => {
                        &&& e matches ZcashError::AssertError(_)
                        &&& if spent > 0 {
                            ext.len() != 1
                        } else {
                            vp.len() == 0
                        }
                    },
                }
            }),
    {
        let np = txd.ptouts.len();
        let mut i: usize = 0;
        let mut spent: u64 = 0;
        while i < np
            invariant
                np == txd.ptouts@.len(),
                i <= np,
                spent == spec_vault_spent(txd.ptouts@, vault_addr@, i as int),
                spec_vault_spent(txd.ptouts@, vault_addr@, np as int) <= u64::MAX,
            decreases np - i,
        {
            if str_eq(txd.ptouts[i].address.as_str(), vault_addr) {
                proof {
                    lemma_vault_spent_monotonic(txd.ptouts@, vault_addr@, i + 1, np as int);
                }
                spent = spent + txd.ptouts[i].value;
            }
            i = i + 1;
        }

        let no = txd.outputs.len();
        if spent > 0 {
            let mut ext: Vec<Output> = Vec::new();
            let mut j: usize = 0;
            while j < no
                invariant
                    no == txd.outputs@.len(),
                    j <= no,
                    ext@ == external_payments(txd.outputs@.take(j as int), vault_addr@),
                decreases no - j,
            {
                proof {
                    assert(txd.outputs@.take(j + 1).drop_last() =~= txd.outputs@.take(j as int));
                    assert(txd.outputs@.take(j + 1).last() == txd.outputs@[j as int]);
                }
                if !str_eq(txd.outputs[j].address.as_str(), vault_addr) && txd.outputs[j].amount
                    > 0 {
                    ext.push(txd.outputs[j].clone());
                }
                j = j + 1;
            }
            proof {
                assert(txd.outputs@.take(no as int) =~= txd.outputs@);
            }
            if ext.len() != 1 {
                return Err(ZcashError::AssertError(
                    "Payment from vault should have a single recipient".to_owned(),
                ));
            }
            let counterparty = match ext.pop() {
                Some(o) => o,
                None => {
                    return Err(ZcashError::AssertError(
                        "Payment from vault should have a single recipient".to_owned(),
                    ));
                },
            };
            Ok(VaultTx { height, txid: txd.txid.clone(), counterparty, direction: Direction::Outgoing })
        } else {
            let mut total: u64 = 0;
            let mut first_memo: Option<String> = None;
            let mut count: usize = 0;
            let mut j: usize = 0;
            while j < no
                invariant
                    no == txd.outputs@.len(),
                    j <= no,
                    sum_amounts(vault_payments(txd.outputs@, vault_addr@)) <= u64::MAX,
                    count == vault_payments(txd.outputs@.take(j as int), vault_addr@).len(),
                    total == sum_amounts(vault_payments(txd.outputs@.take(j as int), vault_addr@)),
                    count > 0 ==> (first_memo matches Some(m) && m@ == vault_payments(
                        txd.outputs@.take(j as int),
                        vault_addr@,
                    )[0].memo@),
                    count == 0 ==> first_memo is None,
                decreases no - j,
            {
                proof {
                    assert(txd.outputs@.take(j + 1).drop_last() =~= txd.outputs@.take(j as int));
                    assert(txd.outputs@.take(j + 1).last() == txd.outputs@[j as int]);
                }
                if str_eq(txd.outputs[j].address.as_str(), vault_addr) && txd.outputs[j].amount
                    > 0 {
                    proof {
                        let vpj = vault_payments(txd.outputs@.take(j as int), vault_addr@);
                        let vpj1 = vault_payments(txd.outputs@.take(j + 1), vault_addr@);
                        assert(vpj1 == vpj.push(txd.outputs@[j as int]));
                        assert(vpj1.drop_last() =~= vpj);
                        assert(sum_amounts(vpj1) == sum_amounts(vpj) + txd.outputs@[j as int].amount);
                        lemma_vault_received_prefix(txd.outputs@, vault_addr@, j + 1);
                        lemma_sum_amounts_nonneg(vpj);
                    }
                    total = total + txd.outputs[j].amount;
                    if count == 0 {
                        first_memo = Some(txd.outputs[j].memo.clone());
                    }
                    proof {
                        lemma_vault_payments_len(txd.outputs@.take(j + 1), vault_addr@);
                    }
                    count = count + 1;
                }
                j = j + 1;
            }
            proof {
                assert(txd.outputs@.take(no as int) =~= txd.outputs@);
            }
            if count == 0 {
                return Err(ZcashError::AssertError(
                    "Payment to vault should have a vault output".to_owned(),
                ));
            }
            let memo = match first_memo {
                Some(m) => m,
                None => String::new(),
            };
            let counterparty_addr: String = if txd.ptouts.len() > 0 {
                txd.ptouts[0].address.clone()
            } else {
                String::new()
            };
            Ok(VaultTx {
                height,
                txid: txd.txid.clone(),
                counterparty: Output { address: counterparty_addr, amount: total, memo },
                direction: Direction::Incoming,
            })
        }
    }
}

/// Confirms that a delta query's reported start hash equals the block
/// header's successor hash.  Any difference means the chain reorganized
/// between the header fetch and the delta fetch, and the scan must fail
/// without committing progress.
pub fn check_delta_start(expected_next_hash: &str, reported_start_hash: &str) -> (r: Result<
    (),
    ZcashError,
>)
    ensures
        match r {
            Ok(_) => expected_next_hash@ == reported_start_hash@,
            Err(e) => expected_next_hash@ != reported_start_hash@ && e is Reorg,
        },
{
    if str_eq(expected_next_hash, reported_start_hash) {
        Ok(())
    } else {
        Err(ZcashError::Reorg)
    }
}

/// Whether any interpreted transparent output pays the given address.
/// Used as the cheap pre-filter before input resolution and decryption.
pub fn tx_touches_address(touts: &Vec<TOut>, addr: &str) -> (r: bool)
    ensures
        r == exists|i: int| 0 <= i < touts@.len() && touts@[i].address@ == addr@,
{
    let n = touts.len();
    let mut i: usize = 0;
    while i < n
        invariant
            n == touts@.len(),
            i <= n,
            forall|j: int| 0 <= j < i ==> touts@[j].address@ != addr@,
        decreases n - i,
    {
        if str_eq(touts[i].address.as_str(), addr) {
            return true;
        }
        i = i + 1;
    }
    false
}

/// Whether some string in the list has the given character sequence.
pub open spec fn seq_has_view(s: Seq<String>, x: Seq<char>) -> bool {
    exists|j: int| 0 <= j < s.len() && (#[trigger] s[j])@ == x
}

/// A longer list with the same prefix keeps every view the shorter one has.
proof fn lemma_seq_has_view_grow(s1: Seq<String>, s2: Seq<String>, v: Seq<char>)
    requires
        seq_has_view(s1, v),
        s1.len() <= s2.len(),
        forall|p: int| 0 <= p < s1.len() ==> s2[p] == s1[p],
    ensures
        seq_has_view(s2, v),
{
    let j = choose|j: int| 0 <= j < s1.len() && (#[trigger] s1[j])@ == v;
    assert((#[trigger] s2[j])@ == v);
}

/// Removes duplicate transaction ids, keeping the first occurrence of each.
/// One transaction may appear in several address-indexed delta entries.
pub fn dedup_txids(txids: &Vec<String>) -> (r: Vec<String>)
    ensures
        forall|i: int, j: int| 0 <= i < j < r@.len() ==> r@[i]@ != r@[j]@,
        forall|i: int| 0 <= i < r@.len() ==> #[trigger] seq_has_view(txids@, r@[i]@),
        forall|j: int| 0 <= j < txids@.len() ==> #[trigger] seq_has_view(r@, txids@[j]@),
{
    let n = txids.len();
    let mut out: Vec<String> = Vec::new();
    let mut i: usize = 0;
    while i < n
        invariant
            n == txids@.len(),
            i <= n,
            forall|p: int, q: int| 0 <= p < q < out@.len() ==> out@[p]@ != out@[q]@,
            forall|p: int| 0 <= p < out@.len() ==> #[trigger] seq_has_view(txids@, out@[p]@),
            forall|j: int| 0 <= j < i ==> #[trigger] seq_has_view(out@, txids@[j]@),
        decreases n - i,
    {
        let mut seen = false;
        let m = out.len();
        let mut k: usize = 0;
        while k < m
            invariant
                m == out@.len(),
                k <= m,
                seen ==> seq_has_view(out@, txids@[i as int]@),
                !seen ==> forall|p: int| 0 <= p < k ==> (#[trigger] out@[p])@ != txids@[
                    i as int
                ]@,
                i < n,
                n == txids@.len(),
            decreases m - k,
        {
            if str_eq(out[k].as_str(), txids[i].as_str()) {
                seen = true;
                proof {
                    assert(out@[k as int]@ == txids@[i as int]@);
                    assert(seq_has_view(out@, txids@[i as int]@));
                }
            }
            k = k + 1;
        }
        if !seen {
            let ghost out0 = out@;
            out.push(txids[i].clone());
            proof {
                assert(out@[out0.len() as int]@ == txids@[i as int]@);
                assert(seq_has_view(txids@, out@[out0.len() as int]@));
                assert forall|j: int| 0 <= j < i + 1 implies #[trigger] seq_has_view(
                    out@,
                    txids@[j]@,
                ) by {
                    if j < i {
                        lemma_seq_has_view_grow(out0, out@, txids@[j]@);
                    } else {
                        assert(out@[out0.len() as int]@ == txids@[j]@);
                        assert(seq_has_view(out@, txids@[j]@));
                    }
                }
            }
        }
        i = i + 1;
    }
    out
}


/// Spec-level interpreted transparent output.
#[verifier::ext_equal]
pub struct TOutV {
    pub address: Seq<char>,
    pub value: u64,
    pub memo: Option<Seq<char>>,
}

impl View for TOut {
    type V = TOutV;

    open spec fn view(&self) -> TOutV {
        TOutV {
            address: self.address@,
            value: self.value,
            memo: match self.memo {
                Some(m) => Some(m@),
                None => None,
            },
        }
    }
}

impl DeepView for TOut {
    type V = TOutV;

    open spec fn deep_view(&self) -> TOutV {
        self.view()
    }
}

/// Spec-level decoded script.
#[verifier::ext_equal]
pub struct ScriptV {
    pub addresses: Option<Seq<Seq<char>>>,
    pub script_asm: Seq<char>,
    pub script_type: Seq<char>,
}

impl View for ScriptPubKey {
    type V = ScriptV;

    open spec fn view(&self) -> ScriptV {
        ScriptV {
            addresses: match self.addresses {
                Some(v) => Some(v.deep_view()),
                None => None,
            },
            script_asm: self.script_asm@,
            script_type: self.script_type@,
        }
    }
}

/// Spec-level raw transparent output.
#[verifier::ext_equal]
pub struct TRawOutV {
    pub vout: u32,
    pub script: ScriptV,
    pub value: u64,
}

impl View for TRawOut {
    type V = TRawOutV;

    open spec fn view(&self) -> TRawOutV {
        TRawOutV { vout: self.vout, script: self.script@, value: self.value }
    }
}

impl DeepView for TRawOut {
    type V = TRawOutV;

    open spec fn deep_view(&self) -> TRawOutV {
        self.view()
    }
}

/// Copies exactly 580 bytes into a fixed array.
fn arr580(v: &Vec<u8>) -> (r: [u8; 580])
    requires
        v@.len() == 580,
    ensures
        r@ == v@,
{
    let mut a: [u8; 580] = [0u8; 580];
    let mut i: usize = 0;
    while i < 580
        invariant
            i <= 580,
            v@.len() == 580,
            forall|j: int| 0 <= j < i ==> a@[j] == v@[j],
        decreases 580 - i,
    {
        a[i] = v[i];
        i = i + 1;
    }
    proof {
        assert(a@ =~= v@);
    }
    a
}

/// Copies exactly 80 bytes into a fixed array.
fn arr80(v: &Vec<u8>) -> (r: [u8; 80])
    requires
        v@.len() == 80,
    ensures
        r@ == v@,
{
    let mut a: [u8; 80] = [0u8; 80];
    let mut i: usize = 0;
    while i < 80
        invariant
            i <= 80,
            v@.len() == 80,
            forall|j: int| 0 <= j < i ==> a@[j] == v@[j],
        decreases 80 - i,
    {
        a[i] = v[i];
        i = i + 1;
    }
    proof {
        assert(a@ =~= v@);
    }
    a
}

/// The text rendered from arbitrary bytes, replacing invalid sequences.
pub uninterp spec fn utf8_lossy_of(bytes: Seq<u8>) -> Seq<char>;

/// Relies on `String::from_utf8_lossy`: deterministic in the bytes, and
/// the identity on valid UTF-8.
#[verifier::external_body]
fn utf8_lossy(b: &Vec<u8>) -> (r: String)
    ensures
        r@ == utf8_lossy_of(b@),
        vstd::utf8::valid_utf8(b@) ==> r@ == vstd::utf8::decode_utf8(b@),
{
    String::from_utf8_lossy(b.as_slice()).into_owned()
}

/// The byte spelling of the data-carrying script marker.
pub open spec fn op_return_prefix9() -> Seq<u8> {
    seq![79u8, 80u8, 95u8, 82u8, 69u8, 84u8, 85u8, 82u8, 78u8]
}

/// What a raw transparent output means: a value output with an address, a
/// data-only output carrying a hexadecimal memo after the script marker,
/// or nothing.
pub open spec fn spec_parse_tout(o: TRawOutV) -> Option<TOutV> {
    if o.script.script_type == "pubkeyhash"@ {
        match o.script.addresses {
            Some(a) => if a.len() > 0 {
                Some(TOutV { address: a[0], value: o.value, memo: None })
            } else {
                None
            },
            None => None,
        }
    } else if o.script.script_type == "nulldata"@ {
        let b = vstd::utf8::encode_utf8(o.script.script_asm);
        if b.len() >= 10 && b.take(9) == op_return_prefix9() && is_hex_bytes(b.skip(10)) {
            Some(
                TOutV {
                    address: Seq::empty(),
                    value: 0,
                    memo: Some(utf8_lossy_of(hex_decoded(b.skip(10)))),
                },
            )
        } else {
            None
        }
    } else {
        None
    }
}

/// Copies the bytes of a slice from a starting position on.
fn tail_bytes(b: &[u8], start: usize) -> (r: Vec<u8>)
    requires
        start <= b@.len(),
    ensures
        r@ == b@.skip(start as int),
{
    let mut r: Vec<u8> = Vec::new();
    let n = b.len();
    let mut i: usize = start;
    while i < n
        invariant
            start <= i <= n,
            n == b@.len(),
            r@ =~= b@.subrange(start as int, i as int),
        decreases n - i,
    {
        r.push(b[i]);
        i = i + 1;
    }
    proof {
        assert(b@.subrange(start as int, n as int) =~= b@.skip(start as int));
    }
    r
}

/// The memo bytes a data-carrying output holds: the decoded hexadecimal
/// payload after the script marker.
pub open spec fn spec_tout_memo_bytes(o: TRawOutV) -> Seq<u8> {
    hex_decoded(vstd::utf8::encode_utf8(o.script.script_asm).skip(10))
}

impl TOut {
    /// Interprets a raw transparent output: a value output carries its
    /// address and value; a data-only output carries a memo; anything
    /// else is dropped.  A memo whose bytes are valid UTF-8 is carried as
    /// exactly their decoding.
    pub fn try_from(out: &TRawOut) -> (r: Result<TOut, ()>)
        ensures
            match r {
                Ok(t) => spec_parse_tout(out@) == Some(t@),
                Err(_) => spec_parse_tout(out@) is None,
            },
            match r {
                Ok(t) => match t@.memo {
                    Some(m) => vstd::utf8::valid_utf8(spec_tout_memo_bytes(out@)) ==> m
                        == vstd::utf8::decode_utf8(spec_tout_memo_bytes(out@)),
                    None => true,
                },
                Err(_) => true,
            },
    {
        if str_eq(out.script.script_type.as_str(), "pubkeyhash") {
            match &out.script.addresses {
                Some(a) => {
                    if a.len() > 0 {
                        proof {
                            assert(a.deep_view()[0] == a@[0]@);
                        }
                        Ok(TOut { address: a[0].clone(), value: out.value, memo: None })
                    } else {
                        Err(())
                    }
                },
                None => Err(()),
            }
        } else if str_eq(out.script.script_type.as_str(), "nulldata") {
            let b = out.script.script_asm.as_str().as_bytes();
            if b.len() < 10 {
                return Err(());
            }
            if !(b[0] == 79 && b[1] == 80 && b[2] == 95 && b[3] == 82 && b[4] == 69 && b[5] == 84
                && b[6] == 85 && b[7] == 82 && b[8] == 78) {
                proof {
                    assert(b@.take(9) != op_return_prefix9());
                }
                return Err(());
            }
            proof {
                assert(b@.take(9) =~= op_return_prefix9());
            }
            let tail = tail_bytes(b, 10);
            let decoded = match decode_hex_bytes(tail.as_slice()) {
                Ok(d) => d,
                Err(_) => {
                    return Err(());
                },
            };
            let memo = utf8_lossy(&decoded);
            Ok(TOut { address: String::new(), value: 0, memo: Some(memo) })
        } else {
            Err(())
        }
    }
}

/// The interpreted transparent outputs of a raw output list, in order.
pub open spec fn spec_parsed_touts(s: Seq<TRawOutV>) -> Seq<TOutV>
    decreases s.len(),
{
    if s.len() == 0 {
        Seq::empty()
    } else {
        let rest = spec_parsed_touts(s.drop_last());
        match spec_parse_tout(s.last()) {
            Some(t) => rest.push(t),
            None => rest,
        }
    }
}

impl VaultTxDetails {
    /// Shapes a raw fetched transaction for resolution and decryption,
    /// interpreting its transparent outputs and dropping those of no
    /// recognized form.
    pub fn from_raw(tx: RawVaultTx) -> (r: VaultTxDetails)
        ensures
            r.txid@ == tx.txid@,
            r.tins == tx.tins,
            r.ptouts@.len() == 0,
            r.touts.deep_view() == spec_parsed_touts(tx.touts.deep_view()),
            r.souts == tx.souts,
            r.actions == tx.orchard.actions,
    {
        let mut touts: Vec<TOut> = Vec::new();
        let n = tx.touts.len();
        let mut i: usize = 0;
        while i < n
            invariant
                n == tx.touts@.len(),
                i <= n,
                touts.deep_view() == spec_parsed_touts(tx.touts.deep_view().take(i as int)),
            decreases n - i,
        {
            proof {
                assert(tx.touts.deep_view().take(i + 1).drop_last() =~= tx.touts.deep_view().take(
                    i as int,
                ));
                assert(tx.touts.deep_view().take(i + 1).last() == tx.touts@[i as int]@);
            }
            match TOut::try_from(&tx.touts[i]) {
                Ok(t) => {
                    touts.push(t);
                },
                Err(_) => (),
            }
            proof {
                assert(touts.deep_view() =~= spec_parsed_touts(
                    tx.touts.deep_view().take(i + 1),
                ));
            }
            i = i + 1;
        }
        proof {
            assert(tx.touts.deep_view().take(n as int) =~= tx.touts.deep_view());
        }
        VaultTxDetails {
            txid: tx.txid,
            tins: tx.tins,
            ptouts: Vec::new(),
            touts,
            souts: tx.souts,
            actions: tx.orchard.actions,
        }
    }

    /// Records one resolved input's funding output.
    pub fn apply_resolved_input(&mut self, resolved: TOut)
        ensures
            final(self).ptouts@ == old(self).ptouts@.push(resolved),
            final(self).txid == old(self).txid,
            final(self).tins == old(self).tins,
            final(self).touts == old(self).touts,
            final(self).souts == old(self).souts,
            final(self).actions == old(self).actions,
    {
        self.ptouts.push(resolved);
    }
}

/// Reads the funding output that a transparent input references: the
/// output at the input's index position in the funding transaction.
pub fn pick_resolved_output(funding: &RawVaultTx, vout: u32) -> (r: Result<TOut, ZcashError>)
    ensures
        match r {
            Ok(t) => vout < funding.touts@.len() && spec_parse_tout(
                funding.touts.deep_view()[vout as int],
            ) == Some(t@),
            Err(_) => vout >= funding.touts@.len() || spec_parse_tout(
                funding.touts.deep_view()[vout as int],
            ) is None,
        },
{
    if (vout as usize) < funding.touts.len() {
        match TOut::try_from(&funding.touts[vout as usize]) {
            Ok(t) => Ok(t),
            Err(_) => Err(ZcashError::AssertError("Cannot resolve input".to_owned())),
        }
    } else {
        Err(ZcashError::AssertError("Cannot resolve input".to_owned()))
    }
}


/// Spec-level first-generation shielded output fields.
#[verifier::ext_equal]
pub struct SOutV {
    pub cv: Seq<char>,
    pub cmu: Seq<char>,
    pub epk: Seq<char>,
    pub enc: Seq<char>,
    pub out: Seq<char>,
}

impl View for SOut {
    type V = SOutV;

    open spec fn view(&self) -> SOutV {
        SOutV { cv: self.cv@, cmu: self.cmu@, epk: self.epk@, enc: self.enc@, out: self.out@ }
    }
}

impl DeepView for SOut {
    type V = SOutV;

    open spec fn deep_view(&self) -> SOutV {
        self.view()
    }
}

/// Spec-level second-generation shielded action fields.
#[verifier::ext_equal]
pub struct ActionV {
    pub cv: Seq<char>,
    pub cmx: Seq<char>,
    pub rho: Seq<char>,
    pub rk: Seq<char>,
    pub epk: Seq<char>,
    pub enc: Seq<char>,
    pub out: Seq<char>,
}

impl View for Action {
    type V = ActionV;

    open spec fn view(&self) -> ActionV {
        ActionV {
            cv: self.cv@,
            cmx: self.cmx@,
            rho: self.rho@,
            rk: self.rk@,
            epk: self.epk@,
            enc: self.enc@,
            out: self.out@,
        }
    }
}

impl DeepView for Action {
    type V = ActionV;

    open spec fn deep_view(&self) -> ActionV {
        self.view()
    }
}

/// The text of a memo: its content for a well-formed text memo, empty
/// otherwise.
pub uninterp spec fn memo_text_of(memo: Seq<u8>) -> Seq<char>;

/// Relies on `zcash_protocol::memo`: renders a text memo's content and
/// anything else as the empty string; deterministic in the bytes.
#[verifier::external_body]
fn memo_to_string(memo: &Vec<u8>) -> (r: String)
    ensures
        r@ == memo_text_of(memo@),
{
    match zcash_protocol::memo::MemoBytes::from_bytes(memo.as_slice()) {
        Err(_) => String::new(),
        Ok(mb) => match zcash_protocol::memo::Memo::try_from(mb) {
            Ok(zcash_protocol::memo::Memo::Text(text)) => text.to_string(),
            _ => String::new(),
        },
    }
}

/// What trial decryption of a first-generation output yields under an
/// outgoing viewing key: the recovered receiver re-encoded for the
/// network, the note value, and the raw memo bytes, or nothing.
pub uninterp spec fn sapling_recovery_of(
    mainnet: bool,
    ovk: Seq<u8>,
    cv: Seq<u8>,
    cmu: Seq<u8>,
    epk: Seq<u8>,
    enc: Seq<u8>,
    out: Seq<u8>,
) -> Option<(Seq<char>, u64, Seq<u8>)>;

/// Relies on `zcash_note_encryption::try_output_recovery_with_ovk` over
/// the first-generation note encryption: deterministic trial decryption
/// with the outgoing viewing key.
#[verifier::external_body]
fn try_sapling_recovery(
    mainnet: bool,
    ovk: &[u8; 32],
    cv: &[u8; 32],
    cmu: &[u8; 32],
    epk: &[u8; 32],
    enc: &[u8; 580],
    out: &[u8; 80],
) -> (r: Option<(String, u64, Vec<u8>)>)
    ensures
        match r {
            Some(t) => sapling_recovery_of(mainnet, ovk@, cv@, cmu@, epk@, enc@, out@) == Some(
                (t.0@, t.1, t.2@),
            ),
            None => sapling_recovery_of(mainnet, ovk@, cv@, cmu@, epk@, enc@, out@) is None,
        },
{
    let cvp = Option::from(SaplingCv::from_bytes_not_small_order(cv))?;
    let cmup = Option::from(SaplingCmu::from_bytes(cmu))?;
    let od = OutputDescription::<()>::from_parts(cvp, cmup, EphemeralKeyBytes(*epk), *enc, *out, ());
    let dom = SaplingDomain::new(Zip212Enforcement::On);
    let (note, addr, memo) = try_output_recovery_with_ovk(&dom, &SaplingOvk(*ovk), &od, od.cv(), out)?;
    Some((ZAddress::Sapling(addr).encode(&znet(mainnet)), note.value().inner(), memo.to_vec()))
}

/// What trial decryption of a second-generation action yields under an
/// outgoing viewing key: the recovered receiver re-encoded as a unified
/// address, the note value, and the raw memo bytes, or nothing.
pub uninterp spec fn orchard_recovery_of(
    mainnet: bool,
    ovk: Seq<u8>,
    rho: Seq<u8>,
    rk: Seq<u8>,
    cv: Seq<u8>,
    cmx: Seq<u8>,
    epk: Seq<u8>,
    enc: Seq<u8>,
    out: Seq<u8>,
) -> Option<(Seq<char>, u64, Seq<u8>)>;

/// Relies on `zcash_note_encryption::try_output_recovery_with_ovk` over
/// the second-generation note encryption: deterministic trial decryption
/// with the outgoing viewing key.
#[verifier::external_body]
fn try_orchard_recovery(
    mainnet: bool,
    ovk: &[u8; 32],
    rho: &[u8; 32],
    rk: &[u8; 32],
    cv: &[u8; 32],
    cmx: &[u8; 32],
    epk: &[u8; 32],
    enc: &[u8; 580],
    out: &[u8; 80],
) -> (r: Option<(String, u64, Vec<u8>)>)
    ensures
        match r {
            Some(t) => orchard_recovery_of(mainnet, ovk@, rho@, rk@, cv@, cmx@, epk@, enc@, out@)
                == Some((t.0@, t.1, t.2@)),
            None => orchard_recovery_of(mainnet, ovk@, rho@, rk@, cv@, cmx@, epk@, enc@, out@)
                is None,
        },
{
    let nf = Option::from(Nullifier::from_bytes(rho))?;
    let vk = VerificationKey::<SpendAuth>::try_from(*rk).ok()?;
    let cn = Option::from(OrchardCv::from_bytes(cv))?;
    let xm = Option::from(OrchardCmx::from_bytes(cmx))?;
    let tn = TransmittedNoteCiphertext { epk_bytes: *epk, enc_ciphertext: *enc, out_ciphertext: *out };
    let action = orchard::Action::from_parts(nf, vk, xm, tn, cn, ()).ok()?;
    let (note, addr, memo) = try_output_recovery_with_ovk(&OrchardDomain::for_action(&action), &OrchardOvk::from(*ovk), &action, action.cv_net(), out)?;
    Some((encode_orchard_ua(mainnet, &addr.to_raw_address_bytes().to_vec())?, note.value().inner(), memo.to_vec()))
}

/// A hexadecimal field of the given decoded byte length.
pub open spec fn spec_hexn(s: Seq<char>, n: int) -> bool {
    is_hex_bytes(encode_utf8(s)) && hex_decoded(encode_utf8(s)).len() == n
}

/// The decoded bytes of a hexadecimal hash field, byte order reversed.
pub open spec fn spec_rev32(s: Seq<char>) -> Seq<u8> {
    hex_decoded(encode_utf8(s)).reverse()
}

/// The decoded bytes of a hexadecimal field in displayed order.
pub open spec fn spec_fwd(s: Seq<char>) -> Seq<u8> {
    hex_decoded(encode_utf8(s))
}

/// Well-formedness of a reported first-generation output's fields.
pub open spec fn spec_valid_sout(s: SOutV) -> bool {
    spec_hexn(s.cv, 32) && spec_hexn(s.cmu, 32) && spec_hexn(s.epk, 32) && spec_hexn(s.enc, 580)
        && spec_hexn(s.out, 80)
}

/// Well-formedness of a reported second-generation action's fields.
pub open spec fn spec_valid_action(a: ActionV) -> bool {
    spec_hexn(a.cv, 32) && spec_hexn(a.cmx, 32) && spec_hexn(a.rho, 32) && spec_hexn(a.rk, 32)
        && spec_hexn(a.epk, 32) && spec_hexn(a.enc, 580) && spec_hexn(a.out, 80)
}

/// The recovered output of one first-generation shielded output, if any.
pub open spec fn spec_sout_output(mainnet: bool, ovk: Seq<u8>, s: SOutV) -> Option<OutputV> {
    match sapling_recovery_of(
        mainnet,
        ovk,
        spec_rev32(s.cv),
        spec_rev32(s.cmu),
        spec_rev32(s.epk),
        spec_fwd(s.enc),
        spec_fwd(s.out),
    ) {
        Some(t) => Some(OutputV { address: t.0, amount: t.1, memo: memo_text_of(t.2) }),
        None => None,
    }
}

/// The recovered output of one second-generation action, if any.
pub open spec fn spec_action_output(mainnet: bool, ovk: Seq<u8>, a: ActionV) -> Option<OutputV> {
    match orchard_recovery_of(
        mainnet,
        ovk,
        spec_fwd(a.rho),
        spec_fwd(a.rk),
        spec_fwd(a.cv),
        spec_fwd(a.cmx),
        spec_fwd(a.epk),
        spec_fwd(a.enc),
        spec_fwd(a.out),
    ) {
        Some(t) => Some(OutputV { address: t.0, amount: t.1, memo: memo_text_of(t.2) }),
        None => None,
    }
}

/// All outputs recovered from the first-generation shielded outputs.
pub open spec fn spec_sapling_outputs(mainnet: bool, ovk: Seq<u8>, s: Seq<SOutV>) -> Seq<OutputV>
    decreases s.len(),
{
    if s.len() == 0 {
        Seq::empty()
    } else {
        let rest = spec_sapling_outputs(mainnet, ovk, s.drop_last());
        match spec_sout_output(mainnet, ovk, s.last()) {
            Some(o) => rest.push(o),
            None => rest,
        }
    }
}

/// All outputs recovered from the second-generation actions.
pub open spec fn spec_orchard_outputs(mainnet: bool, ovk: Seq<u8>, s: Seq<ActionV>) -> Seq<OutputV>
    decreases s.len(),
{
    if s.len() == 0 {
        Seq::empty()
    } else {
        let rest = spec_orchard_outputs(mainnet, ovk, s.drop_last());
        match spec_action_output(mainnet, ovk, s.last()) {
            Some(o) => rest.push(o),
            None => rest,
        }
    }
}

/// The transaction's data-carried memo: the last one among its
/// transparent outputs, if any.
pub open spec fn last_tmemo(s: Seq<TOutV>, k: int) -> Option<Seq<char>>
    decreases k,
{
    if k <= 0 {
        None
    } else {
        match s[k - 1].memo {
            Some(m) => Some(m),
            None => last_tmemo(s, k - 1),
        }
    }
}

/// The transparent part of a decrypted transaction: one logical output
/// per interpreted transparent output, all carrying the transaction's
/// single data-carried memo.
pub open spec fn spec_transparent_outputs(touts: Seq<TOutV>) -> Seq<OutputV> {
    Seq::new(
        touts.len(),
        |i: int|
            OutputV {
                address: touts[i].address,
                amount: touts[i].value,
                memo: match last_tmemo(touts, touts.len() as int) {
                    Some(m) => m,
                    None => Seq::empty(),
                },
            },
    )
}

/// Copies a list of interpreted transparent outputs.
fn clone_touts(v: &Vec<TOut>) -> (r: Vec<TOut>)
    ensures
        r@ == v@,
{
    let mut r: Vec<TOut> = Vec::new();
    let n = v.len();
    let mut i: usize = 0;
    while i < n
        invariant
            n == v@.len(),
            i <= n,
            r@ =~= v@.take(i as int),
        decreases n - i,
    {
        r.push(v[i].clone());
        i = i + 1;
    }
    proof {
        assert(v@.take(n as int) =~= v@);
    }
    r
}

impl VaultTxDetails {
    /// Attempts trial decryption of every shielded output with the
    /// vault's outgoing viewing key, after interpreting the transparent
    /// outputs and propagating the transaction's single data-carried memo
    /// to all of them.  Only notes the vault itself sent are recoverable
    /// this way.  Fails exactly when a shielded field of the node's reply
    /// is malformed.
    #[verifier::rlimit(100)]
    pub fn decrypt(&self, mainnet: bool, ovk: [u8; 32]) -> (r: Result<
        VaultTxDecrypted,
        ZcashError,
    >)
        ensures
            ({
                let souts_ok = forall|i: int|
                    0 <= i < self.souts@.len() ==> spec_valid_sout(
                        #[trigger] self.souts.deep_view()[i],
                    );
                let actions_ok = forall|i: int|
                    0 <= i < self.actions@.len() ==> spec_valid_action(
                        #[trigger] self.actions.deep_view()[i],
                    );
                match r {
                    Ok(d) => {
                        &&& d.txid@ == self.txid@
                        &&& d.ptouts@ == self.ptouts@
                        &&& souts_ok
                        &&& actions_ok
                        &&& d.outputs.deep_view() == spec_transparent_outputs(
                            self.touts.deep_view(),
                        ) + spec_sapling_outputs(mainnet, ovk@, self.souts.deep_view())
                            + spec_orchard_outputs(mainnet, ovk@, self.actions.deep_view())
                    },
                    Err(_) => !(souts_ok && actions_ok),
                }
            }),
    {
        let ghost base = spec_transparent_outputs(self.touts.deep_view());
        let nt = self.touts.len();
        let mut tmemo: Option<String> = None;
        let mut i: usize = 0;
        while i < nt
            invariant
                nt == self.touts@.len(),
                i <= nt,
                match tmemo {
                    Some(m) => last_tmemo(self.touts.deep_view(), i as int) == Some(m@),
                    None => last_tmemo(self.touts.deep_view(), i as int) is None,
                },
            decreases nt - i,
        {
            proof {
                assert(self.touts.deep_view()[i as int] == self.touts@[i as int]@);
            }
            match &self.touts[i].memo {
                Some(m) => {
                    tmemo = Some(m.clone());
                },
                None => (),
            }
            i = i + 1;
        }
        let memo_all: String = match &tmemo {
            Some(m) => m.clone(),
            None => String::new(),
        };
        proof {
            assert(memo_all@ == (match last_tmemo(self.touts.deep_view(), nt as int) {
                Some(m) => m,
                None => Seq::<char>::empty(),
            }));
        }

        let mut outputs: Vec<Output> = Vec::new();
        let mut i: usize = 0;
        while i < nt
            invariant
                nt == self.touts@.len(),
                i <= nt,
                base == spec_transparent_outputs(self.touts.deep_view()),
                memo_all@ == (match last_tmemo(self.touts.deep_view(), nt as int) {
                    Some(m) => m,
                    None => Seq::<char>::empty(),
                }),
                outputs.deep_view().len() == i,
                forall|j: int| 0 <= j < i ==> outputs.deep_view()[j] == base[j],
            decreases nt - i,
        {
            proof {
                assert(self.touts.deep_view()[i as int] == self.touts@[i as int]@);
            }
            outputs.push(
                Output {
                    address: self.touts[i].address.clone(),
                    amount: self.touts[i].value,
                    memo: memo_all.clone(),
                },
            );
            i = i + 1;
        }
        proof {
            assert(outputs.deep_view() =~~= base);
            assert(outputs.deep_view() =~~= base + spec_sapling_outputs(
                mainnet,
                ovk@,
                self.souts.deep_view().take(0),
            ));
        }

        let ns = self.souts.len();
        let mut s: usize = 0;
        while s < ns
            invariant
                ns == self.souts@.len(),
                s <= ns,
                base == spec_transparent_outputs(self.touts.deep_view()),
                outputs.deep_view() =~~= base + spec_sapling_outputs(
                    mainnet,
                    ovk@,
                    self.souts.deep_view().take(s as int),
                ),
                forall|j: int|
                    0 <= j < s ==> spec_valid_sout(#[trigger] self.souts.deep_view()[j]),
            decreases ns - s,
        {
            proof {
                assert(self.souts.deep_view().take(s + 1).drop_last() =~= self.souts.deep_view()
                    .take(s as int));
                assert(self.souts.deep_view().take(s + 1).last() == self.souts@[s as int]@);
            }
            let so = &self.souts[s];
            let cv = match to_hash(so.cv.as_str()) {
                Ok(v) => v,
                Err(_) => {
                    proof {
                        assert(!spec_valid_sout(self.souts.deep_view()[s as int]));
                    }
                    return Err(ZcashError::AssertError("Invalid shielded output".to_owned()));
                },
            };
            let cmu = match to_hash(so.cmu.as_str()) {
                Ok(v) => v,
                Err(_) => {
                    proof {
                        assert(!spec_valid_sout(self.souts.deep_view()[s as int]));
                    }
                    return Err(ZcashError::AssertError("Invalid shielded output".to_owned()));
                },
            };
            let epk = match to_hash(so.epk.as_str()) {
                Ok(v) => v,
                Err(_) => {
                    proof {
                        assert(!spec_valid_sout(self.souts.deep_view()[s as int]));
                    }
                    return Err(ZcashError::AssertError("Invalid shielded output".to_owned()));
                },
            };
            let enc = match decode_hexstring(so.enc.as_str()) {
                Ok(v) => v,
                Err(_) => {
                    proof {
                        assert(!spec_valid_sout(self.souts.deep_view()[s as int]));
                    }
                    return Err(ZcashError::AssertError("Invalid shielded output".to_owned()));
                },
            };
            if enc.len() != 580 {
                proof {
                    assert(!spec_valid_sout(self.souts.deep_view()[s as int]));
                }
                return Err(ZcashError::AssertError("Invalid shielded output".to_owned()));
            }
            let outc = match decode_hexstring(so.out.as_str()) {
                Ok(v) => v,
                Err(_) => {
                    proof {
                        assert(!spec_valid_sout(self.souts.deep_view()[s as int]));
                    }
                    return Err(ZcashError::AssertError("Invalid shielded output".to_owned()));
                },
            };
            if outc.len() != 80 {
                proof {
                    assert(!spec_valid_sout(self.souts.deep_view()[s as int]));
                }
                return Err(ZcashError::AssertError("Invalid shielded output".to_owned()));
            }
            proof {
                let sv = self.souts.deep_view()[s as int];
                assert(cv@ == spec_rev32(sv.cv));
                assert(cmu@ == spec_rev32(sv.cmu));
                assert(epk@ == spec_rev32(sv.epk));
                assert(enc@ == spec_fwd(sv.enc));
                assert(outc@ == spec_fwd(sv.out));
            }
            let encb = arr580(&enc);
            let outb = arr80(&outc);
            match try_sapling_recovery(mainnet, &ovk, &cv, &cmu, &epk, &encb, &outb) {
                Some((a, v, m)) => {
                    let memo = memo_to_string(&m);
                    let ghost ov = OutputV { address: a@, amount: v, memo: memo@ };
                    proof {
                        let sv = self.souts.deep_view()[s as int];
                        assert(sapling_recovery_of(
                            mainnet,
                            ovk@,
                            spec_rev32(sv.cv),
                            spec_rev32(sv.cmu),
                            spec_rev32(sv.epk),
                            spec_fwd(sv.enc),
                            spec_fwd(sv.out),
                        ) == Some((a@, v, m@)));
                        assert(spec_sout_output(mainnet, ovk@, sv) == Some(ov));
                    }
                    let ghost pre_deep = outputs.deep_view();
                    outputs.push(Output { address: a, amount: v, memo });
                    proof {
                        assert(outputs.deep_view().last() == ov);
                        assert(outputs.deep_view() =~~= pre_deep.push(ov));
                    }
                },
                None => (),
            }
            proof {
                let pre = self.souts.deep_view().take(s as int);
                let post = self.souts.deep_view().take(s + 1);
                assert(post.drop_last() == pre);
                assert(post.len() == s + 1);
                assert(spec_sapling_outputs(mainnet, ovk@, post) == (
                match spec_sout_output(mainnet, ovk@, post.last()) {
                    Some(o) => spec_sapling_outputs(mainnet, ovk@, pre).push(o),
                    None => spec_sapling_outputs(mainnet, ovk@, pre),
                }));
                assert(outputs.deep_view() =~~= base + spec_sapling_outputs(
                    mainnet,
                    ovk@,
                    post,
                ));
            }
            s = s + 1;
        }
        proof {
            assert(self.souts.deep_view().take(ns as int) =~= self.souts.deep_view());
            assert(self.actions.deep_view().take(0) =~= Seq::<ActionV>::empty());
        }
        let ghost sap_all = spec_sapling_outputs(mainnet, ovk@, self.souts.deep_view());

        let na = self.actions.len();
        let mut k: usize = 0;
        while k < na
            invariant
                na == self.actions@.len(),
                k <= na,
                base == spec_transparent_outputs(self.touts.deep_view()),
                sap_all == spec_sapling_outputs(mainnet, ovk@, self.souts.deep_view()),
                forall|j: int|
                    0 <= j < self.souts@.len() ==> spec_valid_sout(
                        #[trigger] self.souts.deep_view()[j],
                    ),
                outputs.deep_view() =~~= base + sap_all + spec_orchard_outputs(
                    mainnet,
                    ovk@,
                    self.actions.deep_view().take(k as int),
                ),
                forall|j: int|
                    0 <= j < k ==> spec_valid_action(#[trigger] self.actions.deep_view()[j]),
            decreases na - k,
        {
            proof {
                assert(self.actions.deep_view().take(k + 1).drop_last() =~= self.actions
                    .deep_view().take(k as int));
                assert(self.actions.deep_view().take(k + 1).last() == self.actions@[k as int]@);
            }
            let ac = &self.actions[k];
            let rho = match to_uhash(ac.rho.as_str()) {
                Ok(v) => v,
                Err(_) => {
                    proof {
                        assert(!spec_valid_action(self.actions.deep_view()[k as int]));
                    }
                    return Err(ZcashError::AssertError("Invalid shielded action".to_owned()));
                },
            };
            let rk = match to_uhash(ac.rk.as_str()) {
                Ok(v) => v,
                Err(_) => {
                    proof {
                        assert(!spec_valid_action(self.actions.deep_view()[k as int]));
                    }
                    return Err(ZcashError::AssertError("Invalid shielded action".to_owned()));
                },
            };
            let cv = match to_uhash(ac.cv.as_str()) {
                Ok(v) => v,
                Err(_) => {
                    proof {
                        assert(!spec_valid_action(self.actions.deep_view()[k as int]));
                    }
                    return Err(ZcashError::AssertError("Invalid shielded action".to_owned()));
                },
            };
            let cmx = match to_uhash(ac.cmx.as_str()) {
                Ok(v) => v,
                Err(_) => {
                    proof {
                        assert(!spec_valid_action(self.actions.deep_view()[k as int]));
                    }
                    return Err(ZcashError::AssertError("Invalid shielded action".to_owned()));
                },
            };
            let epk = match to_uhash(ac.epk.as_str()) {
                Ok(v) => v,
                Err(_) => {
                    proof {
                        assert(!spec_valid_action(self.actions.deep_view()[k as int]));
                    }
                    return Err(ZcashError::AssertError("Invalid shielded action".to_owned()));
                },
            };
            let enc = match decode_hexstring(ac.enc.as_str()) {
                Ok(v) => v,
                Err(_) => {
                    proof {
                        assert(!spec_valid_action(self.actions.deep_view()[k as int]));
                    }
                    return Err(ZcashError::AssertError("Invalid shielded action".to_owned()));
                },
            };
            if enc.len() != 580 {
                proof {
                    assert(!spec_valid_action(self.actions.deep_view()[k as int]));
                }
                return Err(ZcashError::AssertError("Invalid shielded action".to_owned()));
            }
            let outc = match decode_hexstring(ac.out.as_str()) {
                Ok(v) => v,
                Err(_) => {
                    proof {
                        assert(!spec_valid_action(self.actions.deep_view()[k as int]));
                    }
                    return Err(ZcashError::AssertError("Invalid shielded action".to_owned()));
                },
            };
            if outc.len() != 80 {
                proof {
                    assert(!spec_valid_action(self.actions.deep_view()[k as int]));
                }
                return Err(ZcashError::AssertError("Invalid shielded action".to_owned()));
            }
            proof {
                let av = self.actions.deep_view()[k as int];
                assert(rho@ == spec_fwd(av.rho));
                assert(rk@ == spec_fwd(av.rk));
                assert(cv@ == spec_fwd(av.cv));
                assert(cmx@ == spec_fwd(av.cmx));
                assert(epk@ == spec_fwd(av.epk));
                assert(enc@ == spec_fwd(av.enc));
                assert(outc@ == spec_fwd(av.out));
            }
            let encb = arr580(&enc);
            let outb = arr80(&outc);
            match try_orchard_recovery(mainnet, &ovk, &rho, &rk, &cv, &cmx, &epk, &encb, &outb) {
                Some((a, v, m)) => {
                    let memo = memo_to_string(&m);
                    let ghost ov = OutputV { address: a@, amount: v, memo: memo@ };
                    proof {
                        let av = self.actions.deep_view()[k as int];
                        assert(orchard_recovery_of(
                            mainnet,
                            ovk@,
                            spec_fwd(av.rho),
                            spec_fwd(av.rk),
                            spec_fwd(av.cv),
                            spec_fwd(av.cmx),
                            spec_fwd(av.epk),
                            spec_fwd(av.enc),
                            spec_fwd(av.out),
                        ) == Some((a@, v, m@)));
                        assert(spec_action_output(mainnet, ovk@, av) == Some(ov));
                    }
                    let ghost pre_deep = outputs.deep_view();
                    outputs.push(Output { address: a, amount: v, memo });
                    proof {
                        assert(outputs.deep_view().last() == ov);
                        assert(outputs.deep_view() =~~= pre_deep.push(ov));
                    }
                },
                None => (),
            }
            proof {
                let pre = self.actions.deep_view().take(k as int);
                let post = self.actions.deep_view().take(k + 1);
                assert(post.drop_last() == pre);
                assert(post.len() == k + 1);
                assert(spec_orchard_outputs(mainnet, ovk@, post) == (
                match spec_action_output(mainnet, ovk@, post.last()) {
                    Some(o) => spec_orchard_outputs(mainnet, ovk@, pre).push(o),
                    None => spec_orchard_outputs(mainnet, ovk@, pre),
                }));
                assert(outputs.deep_view() =~~= base + sap_all + spec_orchard_outputs(
                    mainnet,
                    ovk@,
                    post,
                ));
            }
            k = k + 1;
        }
        proof {
            assert(self.actions.deep_view().take(na as int) =~= self.actions.deep_view());
        }

        Ok(
            VaultTxDecrypted {
                txid: self.txid.clone(),
                ptouts: clone_touts(&self.ptouts),
                outputs,
            },
        )
    }
}

} // verus!
