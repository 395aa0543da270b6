use neet_perp::neet_insurance::{
    cover_bad_debt, deposit, fee_share_bps, initialize as init_fund, DebtCovered, InsDeposit, InsError, InsState,
    HIGH_SHARE, NORMAL_SHARE,
};
use neet_perp::neet_treasury::{
    distribute_fees, execute_buyback, initialize as init_treasury, set_buyback_pct, Buyback, FeesDistributed,
    TrError, TreasuryState,
};

fn fund() -> InsState {
    let mut s = InsState { admin: [0u8; 32], total_balance: 9, total_covered: 9, bump: 0 };
    init_fund(&mut s, [3u8; 32], 7);
    s
}

fn treasury() -> TreasuryState {
    let mut s = TreasuryState { admin: [0u8; 32], total_fees: 9, total_burned: 9, last_buyback_ts: 9, buyback_pct: 9, bump: 0 };
    init_treasury(&mut s, [3u8; 32], 7);
    s
}

#[test]
fn fund_starts_empty() {
    assert_eq!(fund(), InsState { admin: [3u8; 32], total_balance: 0, total_covered: 0, bump: 7 });
}

#[test]
fn fund_deposit_and_cover() {
    let mut s = fund();
    assert_eq!(deposit(&mut s, 100, 5), Ok(InsDeposit { amount: 100, total: 100, ts: 5 }));
    let ev = cover_bad_debt(&mut s, 30, [8u8; 32], 2, 6).unwrap();
    assert_eq!(ev, DebtCovered { user: [8u8; 32], market: 2, amount: 30, remaining: 70, ts: 6 });
    assert_eq!(s.total_balance, 70);
    assert_eq!(s.total_covered, 30);
    assert_eq!(s.total_balance + s.total_covered, 100);
}

#[test]
fn fund_errors() {
    let mut s = fund();
    deposit(&mut s, 100, 5).unwrap();
    assert_eq!(cover_bad_debt(&mut s, 101, [8u8; 32], 2, 6), Err(InsError::Insufficient));
    assert_eq!(s.total_balance, 100);
    assert_eq!(deposit(&mut s, u64::MAX, 7), Err(InsError::Overflow));
    s.total_covered = u64::MAX;
    assert_eq!(cover_bad_debt(&mut s, 1, [8u8; 32], 2, 6), Err(InsError::Overflow));
    assert_eq!(s.total_balance, 100);
}

#[test]
fn fee_share_depends_on_coverage() {
    let mut s = fund();
    assert_eq!(fee_share_bps(&s, 0), NORMAL_SHARE);
    deposit(&mut s, 100, 5).unwrap();
    assert_eq!(fee_share_bps(&s, 1_000_000), HIGH_SHARE);
    deposit(&mut s, 9_900, 5).unwrap();
    assert_eq!(fee_share_bps(&s, 1_000_000), NORMAL_SHARE);
    assert_eq!(fee_share_bps(&s, 1_000_001), HIGH_SHARE);
}

#[test]
fn treasury_starts_with_default_pct() {
    assert_eq!(
        treasury(),
        TreasuryState { admin: [3u8; 32], total_fees: 0, total_burned: 0, last_buyback_ts: 0, buyback_pct: 50, bump: 7 }
    );
}

#[test]
fn fee_split_forty_sixty() {
    let mut s = treasury();
    assert_eq!(distribute_fees(&mut s, 1000, 3), Ok(FeesDistributed { total: 1000, insurance: 400, treasury: 600, ts: 3 }));
    let ev = distribute_fees(&mut s, 999, 4).unwrap();
    assert_eq!((ev.insurance, ev.treasury), (399, 600));
    assert_eq!(ev.insurance + ev.treasury, 999);
    assert_eq!(s.total_fees, 1999);
    s.total_fees = u64::MAX;
    assert_eq!(distribute_fees(&mut s, 1, 5), Err(TrError::Overflow));
}

#[test]
fn weekly_buyback() {
    let mut s = treasury();
    assert_eq!(execute_buyback(&mut s, 1000, 604_799), Err(TrError::TooSoon));
    assert_eq!(execute_buyback(&mut s, 1000, 604_800), Ok(Buyback { usdc_spent: 500, neet_burned: 0, ts: 604_800 }));
    assert_eq!(s.total_burned, 500);
    assert_eq!(s.last_buyback_ts, 604_800);
    assert_eq!(execute_buyback(&mut s, 1000, 604_800), Err(TrError::TooSoon));
    assert_eq!(execute_buyback(&mut s, 1, 2 * 604_800), Err(TrError::NothingToBurn));
    s.total_burned = u64::MAX;
    assert_eq!(execute_buyback(&mut s, 1000, 2 * 604_800), Err(TrError::Overflow));
}

#[test]
fn buyback_pct_bounded() {
    let mut s = treasury();
    assert_eq!(set_buyback_pct(&mut s, 101), Err(TrError::BadPct));
    assert_eq!(s.buyback_pct, 50);
    assert_eq!(set_buyback_pct(&mut s, 100), Ok(()));
    assert_eq!(execute_buyback(&mut s, 777, 604_800).unwrap().usdc_spent, 777);
}
