use swapper::amm::{amount_out_min, get_amount_out, DEFAULT_KEEP_PER_MILLE};
use swapper::uint::Uint256;

fn word(x: u128) -> Uint256 {
    Uint256::from_u128(x)
}

#[test]
fn quote_on_equal_reserves() {
    let a = word(1000);
    assert_eq!(get_amount_out(&a, &a, &a), Some(word(499)));
}

#[test]
fn quote_on_mainnet_sized_reserves() {
    let usdc_reserve = word(40_000_000 * 1_000_000);
    let weth_reserve = word(13_000 * 1_000_000_000_000_000_000);
    // Selling 1350 USDC for ETH.
    let out = get_amount_out(&word(1_350_000_000), &usdc_reserve, &weth_reserve);
    assert_eq!(out, Some(word(437_419_031_396_367_301)));
    // Selling 1 ETH for USDC: the reserves are taken the other way round.
    let out = get_amount_out(&word(1_000_000_000_000_000_000), &weth_reserve, &usdc_reserve);
    assert_eq!(out, Some(word(3_067_457_057)));
}

#[test]
fn quote_of_nothing_is_nothing() {
    assert_eq!(get_amount_out(&word(0), &word(5), &word(7)), Some(word(0)));
}

#[test]
fn quote_on_empty_pool_has_no_value() {
    assert_eq!(get_amount_out(&word(0), &word(0), &word(7)), None);
}

#[test]
fn quote_wraps_like_u256() {
    // 2^255 * 997 wraps to 2^255; the denominator is 2^255 + 1000.
    let half = Uint256::from_limbs([0, 0, 0, 1u64 << 63]);
    assert_eq!(get_amount_out(&half, &word(1), &word(1)), Some(word(0)));
}

#[test]
fn slippage_floor_keeps_the_share() {
    assert_eq!(amount_out_min(&word(3_067_457_057), 950), word(2_914_084_204));
    assert_eq!(amount_out_min(&word(1000), 1000), word(1000));
    assert_eq!(amount_out_min(&word(999), 0), word(0));
    assert_eq!(amount_out_min(&word(1999), 500), word(999));
}

#[test]
fn law_quote_below_reserve_on_values() {
    let reserve_in = word(1_000);
    let reserve_out = word(50);
    for amount in [1u128, 10, 1_000, 1_000_000, 1_000_000_000_000] {
        let out = get_amount_out(&word(amount), &reserve_in, &reserve_out).unwrap();
        assert!(out.limbs()[0] < 50);
        assert_eq!(out.limbs()[1..], [0, 0, 0]);
    }
}

#[test]
fn law_constant_product_on_values() {
    let (rin, rout) = (40_000u128, 13_000u128);
    for amount in [1u128, 7, 350, 40_000, 9_999_999] {
        let out = get_amount_out(&word(amount), &word(rin), &word(rout)).unwrap().limbs()[0] as u128;
        assert!((rin + amount) * (rout - out) >= rin * rout);
        assert!((rin * 1000 + amount * 997) * (rout - out) >= rin * 1000 * rout);
    }
}

#[test]
fn law_quote_monotone_on_values() {
    let (rin, rout) = (word(777), word(123_456));
    let mut last = 0u64;
    for amount in 0u128..300 {
        let out = get_amount_out(&word(amount), &rin, &rout).unwrap().limbs()[0];
        assert!(out >= last);
        last = out;
    }
}

#[test]
fn words_hold_their_values() {
    let x = word((7u128 << 64) + 9);
    assert_eq!(x.limbs(), [9, 7, 0, 0]);
    assert!(!x.is_zero());
    assert!(Uint256::zero().is_zero());
    assert_eq!(Uint256::from_u64(42).limbs(), [42, 0, 0, 0]);
}

#[test]
fn default_slippage_is_five_percent() {
    assert_eq!(DEFAULT_KEEP_PER_MILLE, 950);
    assert_eq!(amount_out_min(&word(2_000), DEFAULT_KEEP_PER_MILLE), word(1_900));
}
