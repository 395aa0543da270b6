use neet_perp::neet_amm::{
    adjust_k, initialize_market, isqrt, price_impact_bps, swap_base_asset, update_index_price, update_twap,
    AmmError, AmmMarket, KAdj, MarketCreated,
};

fn blank() -> AmmMarket {
    AmmMarket {
        market_index: 0,
        admin: [0u8; 32],
        base_reserve: 0,
        quote_reserve: 0,
        k: 0,
        sqrt_k: 0,
        mark_price: 0,
        mark_price_twap: 0,
        index_price: 0,
        total_longs: 0,
        total_shorts: 0,
        cumulative_funding_rate: 0,
        last_funding_ts: 0,
        twap_last_ts: 0,
        bump: 0,
    }
}

/// A market of 1e9 base units priced at $100, created at t = 1000.
fn market_at_100() -> AmmMarket {
    let mut m = blank();
    initialize_market(&mut m, [7u8; 32], 254, 3, 100_000_000, 1_000_000_000, 1000).unwrap();
    m
}

#[test]
fn isqrt_exact_values() {
    assert_eq!(isqrt(0), 0);
    assert_eq!(isqrt(1), 1);
    assert_eq!(isqrt(2), 1);
    assert_eq!(isqrt(3), 1);
    assert_eq!(isqrt(4), 2);
    assert_eq!(isqrt(15), 3);
    assert_eq!(isqrt(16), 4);
    assert_eq!(isqrt(100_000_000_000_000_000_000), 10_000_000_000);
    assert_eq!(isqrt(u128::MAX - 1), 18_446_744_073_709_551_615);
}

#[test]
fn isqrt_brackets_its_argument() {
    for n in 0u128..2000 {
        let r = isqrt(n);
        assert!(r * r <= n && n < (r + 1) * (r + 1), "n = {}", n);
    }
}

#[test]
fn initialize_market_sets_curve() {
    let mut m = blank();
    let ev = initialize_market(&mut m, [7u8; 32], 254, 3, 100_000_000, 1_000_000_000, 1000).unwrap();
    assert_eq!(ev, MarketCreated { market_index: 3, initial_price: 100_000_000, ts: 1000 });
    assert_eq!(m.base_reserve, 1_000_000_000);
    assert_eq!(m.quote_reserve, 100_000_000_000);
    assert_eq!(m.k, 100_000_000_000_000_000_000);
    assert_eq!(m.sqrt_k, 10_000_000_000);
    assert_eq!(m.mark_price, 100_000_000);
    assert_eq!(m.mark_price_twap, 100_000_000);
    assert_eq!(m.index_price, 100_000_000);
    assert_eq!(m.admin, [7u8; 32]);
    assert_eq!(m.bump, 254);
    assert_eq!(m.last_funding_ts, 1000);
    assert_eq!(m.twap_last_ts, 1000);
}

#[test]
fn initialize_market_overflow_leaves_account() {
    let mut m = blank();
    let r = initialize_market(&mut m, [1u8; 32], 1, 0, u64::MAX, u64::MAX, 0);
    assert_eq!(r, Err(AmmError::Overflow));
    assert_eq!(m, blank());
}

#[test]
fn swap_long_pays_along_curve() {
    let mut m = market_at_100();
    let (quote, ev) = swap_base_asset(&mut m, 3, 1_000_000, true, 0, 1090).unwrap();
    assert_eq!(quote, 100_100_100);
    assert_eq!(m.base_reserve, 999_000_000);
    assert_eq!(m.quote_reserve, 100_100_100_100);
    assert_eq!(m.k, 100_000_000_000_000_000_000);
    assert_eq!(m.mark_price, 100_200_300);
    assert_eq!(m.mark_price_twap, 100_020_030);
    assert_eq!(m.twap_last_ts, 1090);
    assert_eq!(m.total_longs, 1_000_000);
    assert_eq!(m.total_shorts, 0);
    assert_eq!(ev.quote_amount, 100_100_100);
    assert_eq!(ev.new_mark_price, 100_200_300);
    assert!(ev.direction);
}

#[test]
fn swap_short_receives_along_curve() {
    let mut m = market_at_100();
    let (quote, _) = swap_base_asset(&mut m, 3, 1_000_000, false, 0, 1000).unwrap();
    assert_eq!(quote, 99_900_100);
    assert_eq!(m.base_reserve, 1_001_000_000);
    assert_eq!(m.quote_reserve, 99_900_099_900);
    assert_eq!(m.mark_price, 99_800_299);
    assert_eq!(m.total_shorts, 1_000_000);
    // Elapsed time of zero still weighs the new mark by one second.
    assert_eq!(m.mark_price_twap, (100_000_000u128 * 899 + 99_800_299u128) as u64 / 900);
}

#[test]
fn swap_long_then_short_round_trip() {
    let mut m = market_at_100();
    let (paid, _) = swap_base_asset(&mut m, 3, 1_000_000, true, 0, 1010).unwrap();
    let (received, _) = swap_base_asset(&mut m, 3, 1_000_000, false, 0, 1020).unwrap();
    assert_eq!(paid, received);
    assert_eq!(m.base_reserve, 1_000_000_000);
    assert_eq!(m.quote_reserve, 100_000_000_000);
}

#[test]
fn swap_price_impact_refused() {
    let mut m = market_at_100();
    let before = m;
    let r = swap_base_asset(&mut m, 3, 30_000_000, true, 0, 1010);
    assert_eq!(r, Err(AmmError::Impact));
    assert_eq!(m, before);
}

#[test]
fn swap_slippage_limits() {
    let mut m = market_at_100();
    let before = m;
    assert_eq!(swap_base_asset(&mut m, 3, 1_000_000, true, 100_200_299, 1010), Err(AmmError::Slippage));
    assert_eq!(m, before);
    assert!(swap_base_asset(&mut m, 3, 1_000_000, true, 100_200_300, 1010).is_ok());
    let mut m2 = market_at_100();
    assert_eq!(swap_base_asset(&mut m2, 3, 1_000_000, false, 99_800_300, 1010), Err(AmmError::Slippage));
    assert!(swap_base_asset(&mut m2, 3, 1_000_000, false, 99_800_299, 1010).is_ok());
}

#[test]
fn swap_more_than_reserve_is_liquidity_error() {
    let mut m = market_at_100();
    assert_eq!(swap_base_asset(&mut m, 3, 2_000_000_000, true, 0, 1010), Err(AmmError::Liquidity));
}

#[test]
fn swap_emptying_base_is_overflow_error() {
    let mut m = market_at_100();
    assert_eq!(swap_base_asset(&mut m, 3, 1_000_000_000, true, 0, 1010), Err(AmmError::Overflow));
}

#[test]
fn swap_short_past_quote_is_liquidity_error() {
    let mut m = blank();
    m.base_reserve = 10;
    m.quote_reserve = 5;
    m.k = 100;
    m.mark_price = 500_000;
    assert_eq!(swap_base_asset(&mut m, 0, 0, false, 0, 0), Err(AmmError::Liquidity));
}

#[test]
fn twap_weights_by_elapsed_time() {
    let mut m = blank();
    m.mark_price_twap = 1_000;
    m.mark_price = 1_900;
    m.twap_last_ts = 100;
    update_twap(&mut m, 400);
    assert_eq!(m.mark_price_twap, 1_300);
    assert_eq!(m.twap_last_ts, 400);
    // A full window or more replaces the TWAP with the mark price.
    update_twap(&mut m, 10_000);
    assert_eq!(m.mark_price_twap, 1_900);
}

#[test]
fn price_impact_formula() {
    assert_eq!(price_impact_bps(0, 5), 0);
    assert_eq!(price_impact_bps(100, 102), 200);
    assert_eq!(price_impact_bps(100, 98), 200);
    assert_eq!(price_impact_bps(3, 4), 3333);
    assert_eq!(price_impact_bps(1, u64::MAX), u64::MAX);
}

#[test]
fn index_price_must_be_positive() {
    let mut m = market_at_100();
    assert_eq!(update_index_price(&mut m, 0), Err(AmmError::BadPrice));
    assert_eq!(m.index_price, 100_000_000);
    assert_eq!(update_index_price(&mut m, 42), Ok(()));
    assert_eq!(m.index_price, 42);
}

#[test]
fn adjust_k_rescales_reserves() {
    let mut m = market_at_100();
    let ev = adjust_k(&mut m, 3, 20_000_000_000, 2000).unwrap();
    assert_eq!(ev, KAdj { market_index: 3, old_sqrt_k: 10_000_000_000, new_sqrt_k: 20_000_000_000, ts: 2000 });
    assert_eq!(m.base_reserve, 2_000_000_000);
    assert_eq!(m.quote_reserve, 200_000_000_000);
    assert_eq!(m.k, 400_000_000_000_000_000_000);
    assert_eq!(m.sqrt_k, 20_000_000_000);
}

#[test]
fn adjust_k_from_zero_sqrt_k_is_overflow() {
    let mut m = blank();
    m.base_reserve = 5;
    m.quote_reserve = 5;
    assert_eq!(adjust_k(&mut m, 0, 3, 0), Err(AmmError::Overflow));
    assert_eq!(m.base_reserve, 5);
}

