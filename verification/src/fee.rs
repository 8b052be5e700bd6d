//! Coin selection and fee computation for spending out of the vault.
//!
//! Coins are taken greedily in the order the chain node returned them; after
//! each coin the fee is recomputed from the tiered rule
//! `max(inputs, outputs) * BASE_FEE`, and selection stops as soon as the
//! accumulated input value covers the payment plus the current fee.
use vstd::prelude::*;
use vstd::string::StringSliceAdditionalSpecFns;

use crate::wallet::UTXO;
use crate::ZcashError;

verus! {

/// Fee per tier step, in minimal currency units.
pub const BASE_FEE: u64 = 5000;

/// Number of transparent outputs of a payment carrying `memo_len` memo
/// bytes: destination and change, plus enough data-only outputs to hold the
/// memo framed by a two-byte header, at 34 bytes per output.
pub open spec fn spec_num_touts(memo_len: nat) -> nat {
    if memo_len == 0 {
        2
    } else {
        (2 + (memo_len + 35) / 34) as nat
    }
}

/// The tiered fee rule: `max(inputs, outputs) * BASE_FEE`.
pub open spec fn spec_fee(tins: nat, touts: nat) -> nat {
    if tins >= touts {
        tins * 5000
    } else {
        touts * 5000
    }
}

/// Total value of the first `k` coins.
pub open spec fn sum_values(s: Seq<UTXO>, k: int) -> int
    decreases k,
{
    if k <= 0 {
        0
    } else {
        sum_values(s, k - 1) + s[k - 1].value
    }
}

/// The first `k` coins cover the payment and the fee owed at `k` inputs.
pub open spec fn covers(s: Seq<UTXO>, amount: u64, touts: nat, k: int) -> bool {
    sum_values(s, k) >= amount + spec_fee(k as nat, touts)
}

/// A longer prefix of the coin list never holds less value.
pub proof fn lemma_sum_values_monotonic(s: Seq<UTXO>, j: int, k: int)
    requires
        0 <= j <= k <= s.len(),
    ensures
        sum_values(s, j) <= sum_values(s, k),
    decreases k - j,
{
    if j < k {
        lemma_sum_values_monotonic(s, j, k - 1);
    }
}

/// The fee never decreases as more inputs are required, for a fixed output
/// count.
pub proof fn lemma_fee_monotonic(t1: nat, t2: nat, touts: nat)
    requires
        t1 <= t2,
    ensures
        spec_fee(t1, touts) <= spec_fee(t2, touts),
{
}

/// With less total value available than the payment plus the minimum fee,
/// no prefix of the coin list covers the payment.
pub proof fn lemma_insufficient_funds(s: Seq<UTXO>, amount: u64, touts: nat)
    requires
        sum_values(s, s.len() as int) < amount + touts * 5000,
    ensures
        forall|k: int| 1 <= k <= s.len() ==> !covers(s, amount, touts, k),
{
    assert forall|k: int| 1 <= k <= s.len() implies !covers(s, amount, touts, k) by {
        lemma_sum_values_monotonic(s, k, s.len() as int);
        assert(spec_fee(k as nat, touts) >= touts * 5000);
    }
}

/// Greedily selects a minimal prefix of `utxos` whose value covers `amount`
/// plus the tiered fee, and reports the final fee and the change.
///
/// On success the selected coins are exactly the shortest prefix that
/// covers the payment, the fee equals `max(inputs, outputs) * BASE_FEE`,
/// and the change is the selected value minus payment minus fee, which the
/// return type keeps at or above zero.  With insufficient total value the
/// selection fails and no prefix covers the payment.
pub fn select_utxos(utxos: &Vec<UTXO>, amount: u64, memo: &str) -> (r: Result<
    (Vec<UTXO>, u64, u64),
    ZcashError,
>)
    requires
        sum_values(utxos@, utxos@.len() as int) <= u64::MAX,
    ensures
        ({
            let touts = spec_num_touts(memo.spec_bytes().len());
            let total = sum_values(utxos@, utxos@.len() as int);
            match r {
                Ok((inputs, change, fee)) => {
                    let k = inputs@.len() as int;
                    &&& 1 <= k <= utxos@.len()
                    &&& inputs@ == utxos@.subrange(0, k)
                    &&& covers(utxos@, amount, touts, k)
                    &&& forall|j: int| 1 <= j < k ==> !covers(utxos@, amount, touts, j)
                    &&& fee == spec_fee(k as nat, touts)
                    &&& amount + fee + change == sum_values(utxos@, k)
                    &&& total >= amount + touts * 5000
                },
                Err(e) => {
                    &&& e is NotEnoughFunds
                    &&& forall|j: int|
                        1 <= j <= utxos@.len() ==> !covers(utxos@, amount, touts, j)
                },
            }
        }),
{
    let memo_len = memo.as_bytes().len();
    let touts: u128 = if memo_len == 0 {
        2
    } else {
        2 + ((memo_len as u128 + 35) / 34)
    };
    let ghost touts_g = spec_num_touts(memo.spec_bytes().len());
    proof {
        assert(touts == touts_g);
        assert(touts < 0x1_0000_0000_0000_0000u128);
    }

    let n = utxos.len();
    let mut i: usize = 0;
    let mut input_amount: u64 = 0;
    let mut inputs: Vec<UTXO> = Vec::new();

    while i < n
        invariant
            n == utxos@.len(),
            i <= n,
            touts == touts_g,
            touts_g == spec_num_touts(memo.spec_bytes().len()),
            touts < 0x1_0000_0000_0000_0000u128,
            sum_values(utxos@, n as int) <= u64::MAX,
            input_amount == sum_values(utxos@, i as int),
            inputs@ == utxos@.subrange(0, i as int),
            forall|j: int| 1 <= j <= i ==> !covers(utxos@, amount, touts_g, j),
        decreases n - i,
    {
        proof {
            lemma_sum_values_monotonic(utxos@, i + 1, n as int);
        }
        input_amount = input_amount + utxos[i].value;
        inputs.push(utxos[i].clone());
        proof {
            assert(inputs@ =~= utxos@.subrange(0, i + 1));
        }
        i = i + 1;

        let fee_k: u128 = (if (i as u128) >= touts {
            i as u128
        } else {
            touts
        }) * 5000;
        proof {
            assert(fee_k == spec_fee(i as nat, touts_g));
        }
        if input_amount as u128 >= amount as u128 + fee_k {
            let fee: u64 = fee_k as u64;
            let change: u64 = input_amount - amount - fee;
            proof {
                lemma_sum_values_monotonic(utxos@, i as int, n as int);
            }
            return Ok((inputs, change, fee));
        }
    }
    Err(ZcashError::NotEnoughFunds)
}

} // verus!
