use neet_perp::neet_funding::{crank_funding, get_funding_rate, FundError, FundingSettled, MarketState};

fn market(mark: u64, twap: u64, index: u64) -> MarketState {
    MarketState {
        market_index: 4,
        mark_price: mark,
        index_price: index,
        mark_price_twap: twap,
        cumulative_funding_rate: 0,
        last_funding_ts: 0,
        twap_last_ts: 0,
        base_reserve: 0,
        quote_reserve: 0,
        k: 0,
        sqrt_k: 0,
        total_longs: 0,
        total_shorts: 0,
        bump: 0,
    }
}

#[test]
fn crank_applies_capped_rate() {
    let mut m = market(100_000_000, 101_000_000, 100_000_000);
    let ev = crank_funding(&mut m, 4, 3600).unwrap();
    assert_eq!(
        ev,
        FundingSettled {
            market_index: 4,
            rate: 7_500_000,
            cumulative: 7_500_000,
            mark_price: 100_000_000,
            index_price: 100_000_000,
            ts: 3600,
        }
    );
    assert_eq!(m.cumulative_funding_rate, 7_500_000);
    assert_eq!(m.last_funding_ts, 3600);
}

#[test]
fn crank_premium_plus_interest() {
    let mut m = market(0, 100_010_000, 100_000_000);
    assert_eq!(crank_funding(&mut m, 4, 4000).unwrap().rate, 107_000);
    let mut m = market(0, 99_990_000, 100_000_000);
    assert_eq!(crank_funding(&mut m, 4, 4000).unwrap().rate, -93_000);
    let mut m = market(0, 50_000_000, 100_000_000);
    assert_eq!(crank_funding(&mut m, 4, 4000).unwrap().rate, -7_500_000);
}

#[test]
fn crank_once_per_hour() {
    let mut m = market(0, 100_000_000, 100_000_000);
    crank_funding(&mut m, 4, 3600).unwrap();
    let after = m;
    assert_eq!(crank_funding(&mut m, 4, 3600), Err(FundError::TooSoon));
    assert_eq!(crank_funding(&mut m, 4, 7199), Err(FundError::TooSoon));
    assert_eq!(m, after);
    assert!(crank_funding(&mut m, 4, 7200).is_ok());
    assert_eq!(m.cumulative_funding_rate, 14_000);
}

#[test]
fn crank_errors() {
    let mut m = market(0, 100_000_000, 0);
    assert_eq!(crank_funding(&mut m, 4, 3600), Err(FundError::NoIndex));
    let mut m = market(0, 101_000_000, 100_000_000);
    m.cumulative_funding_rate = i64::MAX;
    assert_eq!(crank_funding(&mut m, 4, 3600), Err(FundError::Overflow));
    assert_eq!(m.cumulative_funding_rate, i64::MAX);
}

#[test]
fn current_rate_view() {
    assert_eq!(get_funding_rate(&market(101_000_000, 0, 100_000_000), 4), Ok(7_500_000));
    assert_eq!(get_funding_rate(&market(100_010_000, 0, 100_000_000), 4), Ok(107_000));
    assert_eq!(get_funding_rate(&market(100_000_000, 0, 0), 4), Ok(0));
    assert_eq!(get_funding_rate(&market(10_000_000_000_000, 0, 1), 4), Err(FundError::Overflow));
}

#[test]
fn crank_uses_twap_not_mark() {
    let mut m = market(200_000_000, 100_000_000, 100_000_000);
    assert_eq!(crank_funding(&mut m, 4, 3600).unwrap().rate, 7_000);
    assert_eq!(get_funding_rate(&m, 4), Ok(7_500_000));
}

