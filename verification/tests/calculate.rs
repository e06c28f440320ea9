//! End-to-end projection tests, including the original wallet scenarios.

use bitcoin::Amount;
use festivus::calculate_fee;
use festivus::FeeRateSet;
use festivus::FestivusAddressType;
use festivus::FestivusError;
use festivus::FestivusOutpoint;
use festivus::FestivusUtxo;

fn sample_rates() -> FeeRateSet {
    FeeRateSet { fastest: 81, half_hour: 75, hour: 62, economy: 40, minimum: 11 }
}

#[test]
fn calc_fee_p2tr_inputs() {
    let mut utxo_one = FestivusUtxo::default();
    utxo_one.amount_sat = Amount::from_btc(3.6).unwrap().to_sat() as i64;
    utxo_one.outpoint = Some(FestivusOutpoint::default());
    utxo_one.address_type = FestivusAddressType::Taproot;

    let mut utxo_two = FestivusUtxo::default();
    utxo_two.amount_sat = Amount::from_btc(1.2).unwrap().to_sat() as i64;

    let utxos = vec![utxo_one, utxo_two];

    let fees = calculate_fee(Some(utxos), 19_000, None, Some(sample_rates()));

    assert_eq!(fees.is_ok(), true)
}

#[test]
fn calc_fee_p2wkh_inputs() {
    let mut utxo_one = FestivusUtxo::default();
    utxo_one.amount_sat = Amount::from_btc(3.6).unwrap().to_sat() as i64;
    utxo_one.outpoint = Some(FestivusOutpoint::default());
    utxo_one.address_type = FestivusAddressType::Other;

    let mut utxo_two = FestivusUtxo::default();
    utxo_two.amount_sat = Amount::from_btc(1.2).unwrap().to_sat() as i64;

    let utxos = vec![utxo_one, utxo_two];

    let fees = calculate_fee(Some(utxos), 19_000, None, Some(sample_rates()));

    assert_eq!(fees.is_ok(), true)
}

#[test]
fn no_utxos() {
    let fees = calculate_fee(None, 19_000, None, Some(sample_rates()));

    assert_eq!(fees.is_ok(), true)
}

#[test]
fn calc_fee_two_inputs() {
    let mut utxo_one = FestivusUtxo::default();
    utxo_one.amount_sat = Amount::from_btc(1.0).unwrap().to_sat() as i64;
    utxo_one.outpoint = Some(FestivusOutpoint::default());
    utxo_one.address_type = FestivusAddressType::Other;

    let mut utxo_two = FestivusUtxo::default();
    utxo_two.amount_sat = Amount::from_btc(0.5).unwrap().to_sat() as i64;
    utxo_two.address_type = FestivusAddressType::Other;

    let utxos = vec![utxo_one, utxo_two];

    let fees = calculate_fee(Some(utxos), 125_000_000, None, Some(sample_rates()));

    assert_eq!(fees.is_ok(), true)
}

#[test]
fn not_enough_btc() {
    let mut utxo_one = FestivusUtxo::default();
    utxo_one.amount_sat = Amount::from_sat(10_000).to_sat() as i64;
    utxo_one.outpoint = Some(FestivusOutpoint::default());
    utxo_one.address_type = FestivusAddressType::Taproot;

    let mut utxo_two = FestivusUtxo::default();
    utxo_two.amount_sat = Amount::from_sat(5_000).to_sat() as i64;

    let utxos = vec![utxo_one, utxo_two];

    let fees = calculate_fee(Some(utxos), 19_000, None, Some(sample_rates()));

    assert_eq!(fees.is_err(), true)
}

// A 3.6 BTC taproot coin alone covers a 19,000-sat target: the projection
// prices exactly one taproot input plus the two fixed outputs, 154 vbytes.
#[test]
fn single_taproot_coin_prices_one_input() {
    let mut utxo_one = FestivusUtxo::default();
    utxo_one.amount_sat = 360_000_000;
    utxo_one.address_type = FestivusAddressType::Taproot;

    let mut utxo_two = FestivusUtxo::default();
    utxo_two.amount_sat = 120_000_000;
    utxo_two.address_type = FestivusAddressType::Other;

    let fees = calculate_fee(Some(vec![utxo_one, utxo_two]), 19_000, None, Some(sample_rates()))
        .unwrap();

    assert_eq!(fees.fastest_fee, (154 * 81, 81));
    assert_eq!(fees.half_hour_fee, (154 * 75, 75));
    assert_eq!(fees.hour_fee, (154 * 62, 62));
    assert_eq!(fees.economy_fee, (154 * 40, 40));
    assert_eq!(fees.minimum_fee, (154 * 11, 11));
}

// A shortfall fails with NotEnoughBitcoin before any rate is consulted:
// even a missing oracle answer does not change the error.
#[test]
fn shortfall_beats_missing_oracle() {
    let mut utxo = FestivusUtxo::default();
    utxo.amount_sat = 15_000;

    let fees = calculate_fee(Some(vec![utxo]), 19_000, None, None);

    assert_eq!(fees.unwrap_err(), FestivusError::NotEnoughBitcoin);
}

// Without an override, a missing oracle answer is the rate-source failure.
#[test]
fn missing_oracle_is_reqwest_error() {
    let mut utxo = FestivusUtxo::default();
    utxo.amount_sat = 25_000;

    let fees = calculate_fee(Some(vec![utxo]), 19_000, None, None);

    assert_eq!(fees.unwrap_err(), FestivusError::ReqwestError);
}

// With no coin list, a synthetic taproot coin worth the target stands in:
// the size matches the one-taproot-input case.
#[test]
fn absent_coins_use_synthetic_taproot() {
    let fees = calculate_fee(None, 19_000, Some(50), None).unwrap();

    assert_eq!(fees.fastest_fee, (154 * 50, 50));
    assert_eq!(fees.minimum_fee, (154 * 50, 50));
}

// An override of 50 sat/vbyte lands on all five tiers, each fee being
// exactly the virtual size times 50, and the oracle is never needed.
#[test]
fn override_sets_all_five_tiers() {
    let mut utxo = FestivusUtxo::default();
    utxo.amount_sat = 100_000;
    utxo.address_type = FestivusAddressType::Other;

    let fees = calculate_fee(Some(vec![utxo]), 19_000, Some(50), None).unwrap();

    assert_eq!(fees.fastest_fee, (165 * 50, 50));
    assert_eq!(fees.half_hour_fee, (165 * 50, 50));
    assert_eq!(fees.hour_fee, (165 * 50, 50));
    assert_eq!(fees.economy_fee, (165 * 50, 50));
    assert_eq!(fees.minimum_fee, (165 * 50, 50));
}

// An override wins over a present oracle answer.
#[test]
fn override_ignores_oracle_rates() {
    let mut utxo = FestivusUtxo::default();
    utxo.amount_sat = 100_000;

    let fees = calculate_fee(Some(vec![utxo]), 19_000, Some(7), Some(sample_rates())).unwrap();

    assert_eq!(fees.fastest_fee.1, 7);
    assert_eq!(fees.half_hour_fee.1, 7);
    assert_eq!(fees.hour_fee.1, 7);
    assert_eq!(fees.economy_fee.1, 7);
    assert_eq!(fees.minimum_fee.1, 7);
}

// Distinct oracle rates flow through tier by tier.
#[test]
fn oracle_rates_flow_through() {
    let mut utxo = FestivusUtxo::default();
    utxo.amount_sat = 50_000;
    utxo.address_type = FestivusAddressType::Taproot;

    let fees = calculate_fee(Some(vec![utxo]), 19_000, None, Some(sample_rates())).unwrap();

    assert_eq!(fees.fastest_fee, (154 * 81, 81));
    assert_eq!(fees.half_hour_fee, (154 * 75, 75));
    assert_eq!(fees.hour_fee, (154 * 62, 62));
    assert_eq!(fees.economy_fee, (154 * 40, 40));
    assert_eq!(fees.minimum_fee, (154 * 11, 11));
}

// A target of zero needs no inputs at all: only the base overhead is priced.
#[test]
fn zero_target_prices_base_overhead() {
    let fees = calculate_fee(Some(vec![]), 0, Some(3), None).unwrap();

    assert_eq!(fees.fastest_fee, (96 * 3, 3));
}
