//! Selection-order tests: largest first, stable on ties, minimal prefix.

use festivus::select_coins;
use festivus::FestivusAddressType;
use festivus::FestivusError;
use festivus::FestivusUtxo;

fn coin(amount: i64, address: &str) -> FestivusUtxo {
    let mut c = FestivusUtxo::default();
    c.amount_sat = amount;
    c.address = address.to_owned();
    c
}

#[test]
fn selects_largest_first() {
    let coins = vec![coin(5_000, "a"), coin(20_000, "b"), coin(9_000, "c")];

    let sel = select_coins(coins, 21_000).unwrap();

    assert_eq!(sel.coins.len(), 2);
    assert_eq!(sel.coins[0].address, "b");
    assert_eq!(sel.coins[1].address, "c");
    assert_eq!(sel.remaining, 21_000 - 20_000 - 9_000);
}

#[test]
fn equal_amounts_keep_input_order() {
    let coins = vec![
        coin(7_000, "first"),
        coin(9_000, "big"),
        coin(7_000, "second"),
        coin(7_000, "third"),
    ];

    let sel = select_coins(coins, 22_000).unwrap();

    assert_eq!(sel.coins.len(), 3);
    assert_eq!(sel.coins[0].address, "big");
    assert_eq!(sel.coins[1].address, "first");
    assert_eq!(sel.coins[2].address, "second");
}

#[test]
fn selection_is_minimal_prefix() {
    let coins = vec![coin(10_000, "a"), coin(8_000, "b"), coin(6_000, "c")];

    let sel = select_coins(coins, 12_000).unwrap();

    // two coins cover the target; the first alone would not
    assert_eq!(sel.coins.len(), 2);
    assert_eq!(sel.remaining, 12_000 - 18_000);
}

#[test]
fn exact_cover_leaves_zero_remaining() {
    let coins = vec![coin(4_000, "a"), coin(6_000, "b")];

    let sel = select_coins(coins, 10_000).unwrap();

    assert_eq!(sel.coins.len(), 2);
    assert_eq!(sel.remaining, 0);
}

#[test]
fn zero_target_selects_nothing() {
    let coins = vec![coin(4_000, "a")];

    let sel = select_coins(coins, 0).unwrap();

    assert_eq!(sel.coins.len(), 0);
    assert_eq!(sel.remaining, 0);
}

#[test]
fn shortfall_is_not_enough_bitcoin() {
    let coins = vec![coin(10_000, "a"), coin(5_000, "b")];

    let r = select_coins(coins, 19_000);

    assert_eq!(r.unwrap_err(), FestivusError::NotEnoughBitcoin);
}

#[test]
fn empty_coin_list_fails_on_positive_target() {
    let r = select_coins(vec![], 1);

    assert_eq!(r.unwrap_err(), FestivusError::NotEnoughBitcoin);
}

#[test]
fn zero_amount_coins_are_skipped_after_cover() {
    let coins = vec![coin(0, "dust"), coin(30_000, "real"), coin(0, "more dust")];

    let sel = select_coins(coins, 19_000).unwrap();

    assert_eq!(sel.coins.len(), 1);
    assert_eq!(sel.coins[0].address, "real");
    assert_eq!(sel.coins[0].address_type, FestivusAddressType::Taproot);
}
