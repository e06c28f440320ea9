//! Fee-rate resolution and fee projection.
//!
//! The five tier rates come either from a caller-supplied uniform override
//! or from the external rate oracle. The oracle itself lives outside this
//! library: the caller performs the one fetch and hands its outcome in as an
//! `Option<FeeRateSet>`, which [`calculate_fee`] consults only when no
//! override is given and the coins cover the target.

use vstd::prelude::*;

use crate::model::FeeRateSet;
use crate::model::FestivusAddressType;
use crate::model::FestivusError;
use crate::model::FestivusOutpoint;
use crate::model::FestivusUtxo;
use crate::model::ProjectedFees;
use crate::selection::greedy_remaining;
use crate::selection::greedy_count;
use crate::selection::insert_desc;
use crate::selection::lemma_greedy_count_le_len;
use crate::selection::lemma_sort_desc_len;
use crate::selection::nonnegative_amounts;
use crate::selection::select_coins;
use crate::selection::sort_desc;
use crate::selection::spec_selected;
use crate::selection::sum_amounts;
use crate::weight::estimate_virtual_size;
use crate::weight::kinds_of;
use crate::weight::spec_virtual_size;
use crate::weight::MAX_PREDICTED_INPUTS;

verus! {

/// All five tiers carry the same rate: the caller's override.
pub fn uniform_rates(rate: u64) -> (r: FeeRateSet)
    ensures
        r == (FeeRateSet {
            fastest: rate,
            half_hour: rate,
            hour: rate,
            economy: rate,
            minimum: rate,
        }),
{
    FeeRateSet { fastest: rate, half_hour: rate, hour: rate, economy: rate, minimum: rate }
}

/// Every tier's fee, `virtual size * rate`, fits in a `u64`.
pub open spec fn products_fit(vsize: int, rates: FeeRateSet) -> bool {
    &&& vsize * rates.fastest <= u64::MAX
    &&& vsize * rates.half_hour <= u64::MAX
    &&& vsize * rates.hour <= u64::MAX
    &&& vsize * rates.economy <= u64::MAX
    &&& vsize * rates.minimum <= u64::MAX
}

/// The projected-fee report: for every tier, exactly
/// `(virtual_size * rate, rate)`. Pure integer multiplication, no rounding.
pub fn project_fees(virtual_size: u64, rates: &FeeRateSet) -> (r: ProjectedFees)
    requires
        products_fit(virtual_size as int, *rates),
    ensures
        r.fastest_fee == (((virtual_size * rates.fastest) as u64, rates.fastest)),
        r.half_hour_fee == (((virtual_size * rates.half_hour) as u64, rates.half_hour)),
        r.hour_fee == (((virtual_size * rates.hour) as u64, rates.hour)),
        r.economy_fee == (((virtual_size * rates.economy) as u64, rates.economy)),
        r.minimum_fee == (((virtual_size * rates.minimum) as u64, rates.minimum)),
{
    ProjectedFees {
        fastest_fee: (virtual_size * rates.fastest, rates.fastest),
        half_hour_fee: (virtual_size * rates.half_hour, rates.half_hour),
        hour_fee: (virtual_size * rates.hour, rates.hour),
        economy_fee: (virtual_size * rates.economy, rates.economy),
        minimum_fee: (virtual_size * rates.minimum, rates.minimum),
    }
}

/// The coins cannot cover the target. Only a caller-supplied coin list can
/// fall short; the synthetic default coin is worth the target itself.
pub open spec fn spec_shortfall(utxos: Option<Vec<FestivusUtxo>>, amount: int) -> bool {
    utxos matches Some(v) && sum_amounts(v@) < amount
}

/// The spending-condition classes of the coins the call would select: the
/// greedy selection from the supplied coins, or the single synthetic
/// taproot coin when none were supplied (none at all when the target is
/// already covered by nothing).
pub open spec fn spec_selected_kinds(utxos: Option<Vec<FestivusUtxo>>, amount: int) -> Seq<
    FestivusAddressType,
> {
    match utxos {
        Some(v) => kinds_of(spec_selected(v@, amount)),
        None => if amount > 0 {
            seq![FestivusAddressType::Taproot]
        } else {
            Seq::empty()
        },
    }
}

/// The rates the projection uses: the override, uniformly, when present,
/// otherwise whatever the oracle answered.
pub open spec fn spec_resolved_rates(
    fee_rate_override: Option<u64>,
    oracle_rates: Option<FeeRateSet>,
) -> FeeRateSet {
    match fee_rate_override {
        Some(rate) => FeeRateSet {
            fastest: rate,
            half_hour: rate,
            hour: rate,
            economy: rate,
            minimum: rate,
        },
        None => match oracle_rates {
            Some(rs) => rs,
            None => arbitrary(),
        },
    }
}

/// Resolves the five tier rates. A present override fills all five tiers
/// by itself and the oracle's answer — present or not — is ignored; it is
/// never "tried first and corrected". Without an override the oracle's
/// answer is required, and its absence is the rate-source failure.
pub fn resolve_rates(fee_rate_override: Option<u64>, oracle_rates: Option<FeeRateSet>) -> (r:
    Result<FeeRateSet, FestivusError>)
    ensures
        r is Ok <==> fee_rate_override is Some || oracle_rates is Some,
        r matches Ok(rs) ==> rs == spec_resolved_rates(fee_rate_override, oracle_rates),
        r matches Err(e) ==> e == FestivusError::ReqwestError,
        fee_rate_override matches Some(x) ==> r matches Ok(rs) && rs.fastest == x
            && rs.half_hour == x && rs.hour == x && rs.economy == x && rs.minimum == x,
{
    match fee_rate_override {
        Some(rate) => Ok(uniform_rates(rate)),
        None => match oracle_rates {
            Some(rs) => Ok(rs),
            None => Err(FestivusError::ReqwestError),
        },
    }
}

/// Projects the fee of funding `amount` from `utxos` at each of the five
/// market tiers.
///
/// When `utxos` is absent a single synthetic taproot coin of amount
/// `amount` stands in. Selection failure short-circuits with
/// `NotEnoughBitcoin` before the rates are even looked at. With an override
/// present the oracle's answer is ignored entirely; without one, a missing
/// answer (`oracle_rates == None`) becomes `ReqwestError`.
pub fn calculate_fee(
    utxos: Option<Vec<FestivusUtxo>>,
    amount: i64,
    fee_rate_override: Option<u64>,
    oracle_rates: Option<FeeRateSet>,
) -> (r: Result<ProjectedFees, FestivusError>)
    requires
        amount >= 0,
        utxos matches Some(v) ==> nonnegative_amounts(v@) && v@.len() <= MAX_PREDICTED_INPUTS,
        !spec_shortfall(utxos, amount as int) && (fee_rate_override is Some
            || oracle_rates is Some) ==> products_fit(
            spec_virtual_size(spec_selected_kinds(utxos, amount as int)),
            spec_resolved_rates(fee_rate_override, oracle_rates),
        ),
    ensures
        r is Ok <==> !spec_shortfall(utxos, amount as int) && (fee_rate_override is Some
            || oracle_rates is Some),
        r == Err::<ProjectedFees, FestivusError>(FestivusError::NotEnoughBitcoin)
            <==> spec_shortfall(utxos, amount as int),
        r == Err::<ProjectedFees, FestivusError>(FestivusError::ReqwestError) <==> !spec_shortfall(
            utxos,
            amount as int,
        ) && fee_rate_override is None && oracle_rates is None,
        r matches Ok(p) ==> {
            let vs = spec_virtual_size(spec_selected_kinds(utxos, amount as int));
            let rates = spec_resolved_rates(fee_rate_override, oracle_rates);
            &&& p.fastest_fee == (((vs * rates.fastest) as u64, rates.fastest))
            &&& p.half_hour_fee == (((vs * rates.half_hour) as u64, rates.half_hour))
            &&& p.hour_fee == (((vs * rates.hour) as u64, rates.hour))
            &&& p.economy_fee == (((vs * rates.economy) as u64, rates.economy))
            &&& p.minimum_fee == (((vs * rates.minimum) as u64, rates.minimum))
        },
        r matches Ok(p) ==> (fee_rate_override matches Some(x) ==> p.fastest_fee.1 == x
            && p.half_hour_fee.1 == x && p.hour_fee.1 == x && p.economy_fee.1 == x
            && p.minimum_fee.1 == x),
{
    let coins: Vec<FestivusUtxo> = match utxos {
        Some(u) => u,
        None => {
            let mut utxo = FestivusUtxo::default();
            utxo.amount_sat = amount;
            utxo.outpoint = Some(FestivusOutpoint::default());
            utxo.address_type = FestivusAddressType::Taproot;
            let mut v: Vec<FestivusUtxo> = Vec::new();
            v.push(utxo);
            proof {
                lemma_synthetic_selection(v@, amount as int);
            }
            v
        },
    };

    let sel = match select_coins(coins, amount) {
        Ok(s) => s,
        Err(e) => {
            return Err(e);
        },
    };

    proof {
        lemma_sort_desc_len(coins@);
        lemma_greedy_count_le_len(sort_desc(coins@), amount as int);
    }
    let vsize = estimate_virtual_size(&sel.coins);

    let rates = match resolve_rates(fee_rate_override, oracle_rates) {
        Ok(rs) => rs,
        Err(e) => {
            return Err(e);
        },
    };

    Ok(project_fees(vsize, &rates))
}

/// The synthetic single-coin case: a one-coin list whose amount equals the
/// target always covers it, and the selection is that coin exactly when the
/// target is positive.
proof fn lemma_synthetic_selection(s: Seq<FestivusUtxo>, amount: int)
    requires
        s.len() == 1,
        s[0].amount_sat == amount,
        s[0].address_type == FestivusAddressType::Taproot,
    ensures
        sum_amounts(s) == amount,
        kinds_of(spec_selected(s, amount)) == if amount > 0 {
            seq![FestivusAddressType::Taproot]
        } else {
            Seq::<FestivusAddressType>::empty()
        },
        greedy_remaining(sort_desc(s), amount) <= 0,
{
    assert(s.first() == s[0]);
    assert(s.last() == s[0]);
    assert(s.drop_first() =~= Seq::<FestivusUtxo>::empty());
    assert(s.drop_last() =~= Seq::<FestivusUtxo>::empty());
    assert(sum_amounts(Seq::<FestivusUtxo>::empty()) == 0);
    assert(sort_desc(Seq::<FestivusUtxo>::empty()) == Seq::<FestivusUtxo>::empty());
    assert(insert_desc(Seq::<FestivusUtxo>::empty(), s[0]) == seq![s[0]]);
    assert(sort_desc(s) =~= seq![s[0]]);
    let ss = sort_desc(s);
    assert(ss.first() == s[0]);
    assert(ss.drop_first() =~= Seq::<FestivusUtxo>::empty());
    if amount > 0 {
        assert(amount - ss.first().amount_sat == 0);
        assert(greedy_remaining(Seq::<FestivusUtxo>::empty(), 0) == 0);
        assert(greedy_remaining(ss, amount) == 0);
        assert(greedy_count(Seq::<FestivusUtxo>::empty(), 0) == 0);
        assert(greedy_count(ss, amount) == 1);
        assert(spec_selected(s, amount) =~= seq![s[0]]);
        assert(kinds_of(seq![s[0]]) =~= seq![FestivusAddressType::Taproot]);
    } else {
        assert(spec_selected(s, amount) =~= Seq::empty());
        assert(kinds_of(Seq::<FestivusUtxo>::empty()) =~= Seq::<FestivusAddressType>::empty());
    }
}

} // verus!
