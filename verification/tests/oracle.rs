use neet_perp::neet_oracle_adapter::{
    conf_ok, initialize, move_bps, refresh_price, unpause, CircuitBreaker, HourlyHalt, MarketRef, OracleError,
    OracleFail, OracleHalt, OracleState, PriceUpdated,
};

fn state() -> OracleState {
    let mut s = OracleState {
        admin: [0u8; 32],
        paused: true,
        last_price: 5,
        last_price_ts: 5,
        hour_open_price: 5,
        hour_open_ts: 5,
        bump: 0,
    };
    initialize(&mut s, [6u8; 32], 3);
    s
}

fn market(twap: u64, twap_ts: i64) -> MarketRef {
    MarketRef {
        market_index: 1,
        _admin: [0u8; 32],
        base_reserve: 0,
        quote_reserve: 0,
        k: 0,
        sqrt_k: 0,
        mark_price: twap,
        mark_price_twap: twap,
        index_price: 0,
        _rest: [0u8; 32],
        twap_last_ts: twap_ts,
        bump: 0,
    }
}

const T: i64 = 10_000;

#[test]
fn starts_unpaused_without_price() {
    let s = state();
    assert!(!s.paused);
    assert_eq!((s.last_price, s.last_price_ts, s.hour_open_price, s.hour_open_ts), (0, 0, 0, 0));
}

#[test]
fn confident_pyth_price_wins() {
    let mut s = state();
    let mut m = market(0, 0);
    let ev = refresh_price(&mut s, &mut m, 1, 100_000_000, 1_000_000, T - 10, 90_000_000, T, T).unwrap();
    assert_eq!(ev, PriceUpdated { index_price: 100_000_000, ts: T });
    assert_eq!(m.index_price, 100_000_000);
    assert_eq!(s.last_price, 100_000_000);
    assert_eq!(s.last_price_ts, T);
    assert_eq!(s.hour_open_price, 100_000_000);
    assert_eq!(s.hour_open_ts, T);
}

#[test]
fn falls_back_to_switchboard_then_twap() {
    let mut s = state();
    let mut m = market(0, 0);
    // Pyth confidence of 3% is too wide.
    let ev = refresh_price(&mut s, &mut m, 1, 100_000_000, 3_000_000, T, 99_000_000, T - 60, T).unwrap();
    assert_eq!(ev.index_price, 99_000_000);
    // Pyth stale, Switchboard missing: the TWAP from under five minutes ago.
    let mut s = state();
    let mut m = market(98_000_000, T - 300);
    let ev = refresh_price(&mut s, &mut m, 1, 100_000_000, 0, T - 61, 0, 0, T).unwrap();
    assert_eq!(ev.index_price, 98_000_000);
}

#[test]
fn no_source_pauses() {
    let mut s = state();
    let mut m = market(98_000_000, T - 301);
    let before = m;
    let r = refresh_price(&mut s, &mut m, 1, 0, 0, 0, 0, 0, T);
    assert_eq!(r, Err(OracleHalt::AllFailed(OracleFail { ts: T })));
    assert_eq!(r.unwrap_err().error(), OracleError::AllFailed);
    assert!(s.paused);
    assert_eq!(m, before);
    unpause(&mut s);
    assert!(!s.paused);
}

#[test]
fn sixty_second_breaker() {
    let mut s = state();
    let mut m = market(0, 0);
    refresh_price(&mut s, &mut m, 1, 100_000_000, 0, T, 0, 0, T).unwrap();
    let r = refresh_price(&mut s, &mut m, 1, 120_000_000, 0, T + 30, 0, 0, T + 30);
    assert_eq!(
        r,
        Err(OracleHalt::CircuitBreaker(CircuitBreaker { old: 100_000_000, new: 120_000_000, bps: 2000, ts: T + 30 }))
    );
    assert!(s.paused);
    assert_eq!(m.index_price, 100_000_000);
    // A 15% move is allowed within 60 seconds.
    let mut s2 = state();
    let mut m2 = market(0, 0);
    refresh_price(&mut s2, &mut m2, 1, 100_000_000, 0, T, 0, 0, T).unwrap();
    assert!(refresh_price(&mut s2, &mut m2, 1, 115_000_000, 0, T + 30, 0, 0, T + 30).is_ok());
    assert!(!s2.paused);
    // After 60 seconds a 25% move passes this breaker (and the hourly one).
    let mut s3 = state();
    let mut m3 = market(0, 0);
    refresh_price(&mut s3, &mut m3, 1, 100_000_000, 0, T, 0, 0, T).unwrap();
    assert!(refresh_price(&mut s3, &mut m3, 1, 125_000_000, 0, T + 61, 0, 0, T + 61).is_ok());
}

#[test]
fn hourly_halt_and_roll_over() {
    let mut s = state();
    let mut m = market(0, 0);
    refresh_price(&mut s, &mut m, 1, 100_000_000, 0, T, 0, 0, T).unwrap();
    refresh_price(&mut s, &mut m, 1, 120_000_000, 0, T + 61, 0, 0, T + 61).unwrap();
    let r = refresh_price(&mut s, &mut m, 1, 140_000_000, 0, T + 200, 0, 0, T + 200);
    assert_eq!(
        r,
        Err(OracleHalt::HourlyHalt(HourlyHalt { open: 100_000_000, cur: 140_000_000, bps: 4000, ts: T + 200 }))
    );
    assert_eq!(r.unwrap_err().error(), OracleError::HourlyHalt);
    assert!(s.paused);
    assert_eq!(s.last_price, 120_000_000);
    // A new hour opens at the current price.
    unpause(&mut s);
    refresh_price(&mut s, &mut m, 1, 140_000_000, 0, T + 3600, 0, 0, T + 3600).unwrap();
    assert_eq!(s.hour_open_price, 140_000_000);
    assert_eq!(s.hour_open_ts, T + 3600);
}

#[test]
fn breaker_helpers() {
    assert!(conf_ok(100_000_000, 2_000_000));
    assert!(!conf_ok(100_000_000, 2_010_000));
    assert!(!conf_ok(0, 0));
    assert_eq!(move_bps(0, 9), 0);
    assert_eq!(move_bps(100, 115), 1500);
    assert_eq!(move_bps(100, 70), 3000);
}
