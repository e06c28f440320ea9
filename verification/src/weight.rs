//! Virtual-size prediction for the to-be-funded transaction.
//!
//! The transaction that would spend the selected coins has one input per
//! coin and two fixed outputs: the channel-funding output (a 34-byte
//! witness-script-hash script) and the change output (a 34-byte taproot
//! script). No signature is ever produced; the model depends only on byte
//! lengths. Non-witness bytes weigh 4 weight units each, witness bytes 1,
//! and the virtual size is the total weight divided by 4, rounded up.

use vstd::prelude::*;

use crate::model::FestivusAddressType;
use crate::model::FestivusUtxo;

verus! {

/// Weight of one taproot key-path input: 41 non-witness bytes (36-byte
/// outpoint, 1-byte empty-script length, 4-byte sequence) at 4 units each,
/// plus a 66-byte witness (item count, length byte, 64-byte Schnorr
/// signature with default sighash).
pub const TAPROOT_INPUT_WEIGHT: u64 = 230;

/// Weight of one witness-pubkey-hash input: the same 41 non-witness bytes,
/// plus a 108-byte witness (item count, then a maximum-size 72-byte
/// signature and a 33-byte compressed public key, each length-prefixed).
pub const WITNESS_PUBKEY_HASH_INPUT_WEIGHT: u64 = 272;

/// Non-witness bytes shared by every predicted transaction, less the input
/// count: 4-byte version, 4-byte lock time, 1-byte output count, and two
/// outputs of 43 bytes each (8-byte value, length byte, 34-byte script).
pub const FIXED_NON_INPUT_BYTES: u64 = 95;

/// The segregated-witness marker and flag bytes, present whenever at least
/// one input carries a witness (here: whenever there is an input at all).
pub const WITNESS_MARKER_WEIGHT: u64 = 2;

/// Cap on the number of predicted inputs, far beyond any real transaction,
/// under which the weight arithmetic provably fits in a `u64`.
pub const MAX_PREDICTED_INPUTS: u64 = 0x10_0000_0000_0000;

/// Byte length of the compact-size encoding of `n`.
pub open spec fn spec_varint_len(n: int) -> int {
    if n < 253 {
        1
    } else if n < 0x1_0000 {
        3
    } else if n < 0x1_0000_0000 {
        5
    } else {
        9
    }
}

/// Weight contribution of one input, by its spending-condition class.
pub open spec fn spec_input_weight(t: FestivusAddressType) -> int {
    match t {
        FestivusAddressType::Taproot => TAPROOT_INPUT_WEIGHT as int,
        FestivusAddressType::Other => WITNESS_PUBKEY_HASH_INPUT_WEIGHT as int,
    }
}

/// Total weight contributed by a sequence of inputs.
pub open spec fn spec_inputs_weight(kinds: Seq<FestivusAddressType>) -> int
    decreases kinds.len(),
{
    if kinds.len() == 0 {
        0
    } else {
        spec_input_weight(kinds.first()) + spec_inputs_weight(kinds.drop_first())
    }
}

/// The spending-condition classes of a coin sequence, in order.
pub open spec fn kinds_of(coins: Seq<FestivusUtxo>) -> Seq<FestivusAddressType> {
    coins.map_values(|c: FestivusUtxo| c.address_type)
}

/// Predicted weight, in weight units, of the transaction spending these
/// inputs into the two fixed outputs.
pub open spec fn spec_tx_weight(kinds: Seq<FestivusAddressType>) -> int {
    4 * (FIXED_NON_INPUT_BYTES + spec_varint_len(kinds.len() as int)) + spec_inputs_weight(kinds)
        + if kinds.len() > 0 {
        WITNESS_MARKER_WEIGHT as int
    } else {
        0
    }
}

/// Predicted virtual size in vbytes: weight divided by four, rounded up.
/// Rounding up (never down) is what keeps the estimate from under-pricing.
pub open spec fn spec_virtual_size(kinds: Seq<FestivusAddressType>) -> int {
    (spec_tx_weight(kinds) + 3) / 4
}

proof fn lemma_inputs_weight_push(s: Seq<FestivusAddressType>, k: FestivusAddressType)
    ensures
        spec_inputs_weight(s.push(k)) == spec_inputs_weight(s) + spec_input_weight(k),
    decreases s.len(),
{
    if s.len() == 0 {
        assert(s.push(k).first() == k);
        assert(s.push(k).drop_first() =~= Seq::<FestivusAddressType>::empty());
        assert(spec_inputs_weight(Seq::<FestivusAddressType>::empty()) == 0);
        assert(s =~= Seq::<FestivusAddressType>::empty());
    } else {
        assert(s.push(k).first() == s.first());
        assert(s.push(k).drop_first() =~= s.drop_first().push(k));
        lemma_inputs_weight_push(s.drop_first(), k);
    }
}

proof fn lemma_inputs_weight_bounds(s: Seq<FestivusAddressType>)
    ensures
        TAPROOT_INPUT_WEIGHT * s.len() <= spec_inputs_weight(s)
            <= WITNESS_PUBKEY_HASH_INPUT_WEIGHT * s.len(),
    decreases s.len(),
{
    if s.len() > 0 {
        lemma_inputs_weight_bounds(s.drop_first());
    }
}

/// Predicts the virtual size of the transaction spending `selected` into
/// the two fixed outputs. Always at least the 96-vbyte base overhead.
pub fn estimate_virtual_size(selected: &Vec<FestivusUtxo>) -> (r: u64)
    requires
        selected@.len() <= MAX_PREDICTED_INPUTS,
    ensures
        r == spec_virtual_size(kinds_of(selected@)),
        r >= 96,
{
    let n = selected.len();
    let mut inputs_weight: u64 = 0;
    let mut i: usize = 0;
    while i < n
        invariant
            i <= n,
            n == selected@.len(),
            n <= MAX_PREDICTED_INPUTS,
            inputs_weight == spec_inputs_weight(kinds_of(selected@.take(i as int))),
            inputs_weight <= WITNESS_PUBKEY_HASH_INPUT_WEIGHT * i,
        decreases n - i,
    {
        let w: u64 = match selected[i].address_type {
            FestivusAddressType::Taproot => TAPROOT_INPUT_WEIGHT,
            FestivusAddressType::Other => WITNESS_PUBKEY_HASH_INPUT_WEIGHT,
        };
        proof {
            assert(kinds_of(selected@.take(i + 1)) =~= kinds_of(selected@.take(i as int)).push(
                selected@[i as int].address_type,
            ));
            lemma_inputs_weight_push(
                kinds_of(selected@.take(i as int)),
                selected@[i as int].address_type,
            );
        }
        inputs_weight = inputs_weight + w;
        i = i + 1;
    }
    proof {
        assert(selected@.take(n as int) =~= selected@);
    }

    let n64 = n as u64;
    let count_varint: u64 = if n64 < 253 {
        1
    } else if n64 < 0x1_0000 {
        3
    } else if n64 < 0x1_0000_0000 {
        5
    } else {
        9
    };
    let marker: u64 = if n > 0 {
        WITNESS_MARKER_WEIGHT
    } else {
        0
    };
    let weight: u64 = 4 * (FIXED_NON_INPUT_BYTES + count_varint) + inputs_weight + marker;
    (weight + 3) / 4
}

} // verus!
