//! Hourly funding: the premium of the mark price over the index price,
//! plus a fixed interest term, capped at ±0.75% and accumulated into the
//! market's cumulative funding rate.

use vstd::prelude::*;
use crate::arith::{as_i64, trunc_div};

pub use crate::neet_clearing_house::MarketState;

verus! {

/// Seconds between funding settlements (one hour).
pub const FUNDING_INTERVAL: i64 = 3600;
pub const FUND_PREC: i64 = 1_000_000_000;
pub const PRICE_PREC: i64 = 1_000_000;
/// Cap on the funding rate per interval, in basis points (±0.75%).
pub const MAX_RATE_BPS: i64 = 75;
/// Interest term added to the premium, in `FUND_PREC` units.
pub const INTEREST: i64 = 7_000;

#[derive(Clone, Copy, Debug, PartialEq, Eq)]
pub struct FundingSettled {
    pub market_index: u8,
    pub rate: i64,
    pub cumulative: i64,
    pub mark_price: u64,
    pub index_price: u64,
    pub ts: i64,
}

#[derive(Clone, Copy, Debug, PartialEq, Eq, Structural)]
pub enum FundError {
    TooSoon,
    NoIndex,
    Overflow,
}


/// The rate cap in `FUND_PREC` units: `MAX_RATE_BPS * FUND_PREC / 10_000`.
pub open spec fn rate_cap() -> int {
    MAX_RATE_BPS * FUND_PREC / 10_000
}

/// Premium of `mark` over `index` in `FUND_PREC` units,
/// `(mark - index) * FUND_PREC / index` rounded toward zero, or `None` when
/// the multiplication or division overflows.
pub open spec fn premium(mark: int, index: int) -> Option<int> {
    let prod = (mark - index) * (FUND_PREC as int);
    if prod < i64::MIN || prod > i64::MAX || index == 0 {
        None
    } else if trunc_div(prod, index) < i64::MIN || trunc_div(prod, index) > i64::MAX {
        None
    } else {
        Some(trunc_div(prod, index))
    }
}

/// `raw` clamped to `[-cap, cap]`.
pub open spec fn capped(raw: int) -> int {
    if raw < -rate_cap() { -rate_cap() } else if raw > rate_cap() { rate_cap() } else { raw }
}

/// The funding rate a crank applies, or why it fails: the interval must
/// have elapsed, the index must be set, and the premium, rate and new
/// cumulative rate must fit.
pub open spec fn crank_rate(m: MarketState, now: i64) -> Result<int, FundError> {
    let mark = as_i64(m.mark_price_twap);
    let index = as_i64(m.index_price);
    if now - m.last_funding_ts < FUNDING_INTERVAL {
        Err(FundError::TooSoon)
    } else if m.index_price == 0 {
        Err(FundError::NoIndex)
    } else {
        match premium(mark, index) {
            None => Err(FundError::Overflow),
            Some(p) => {
                if p + INTEREST > i64::MAX || p + INTEREST < i64::MIN
                    || m.cumulative_funding_rate + capped(p + INTEREST) > i64::MAX
                    || m.cumulative_funding_rate + capped(p + INTEREST) < i64::MIN {
                    Err(FundError::Overflow)
                } else {
                    Ok(capped(p + INTEREST))
                }
            },
        }
    }
}

/// Whether a crank runs without aborting: the elapsed time, and (once the
/// checks before it pass) the mark–index difference, fit in `i64`.
pub open spec fn crank_defined(m: MarketState, now: i64) -> bool {
    &&& i64::MIN <= now - m.last_funding_ts <= i64::MAX
    &&& (now - m.last_funding_ts >= FUNDING_INTERVAL && m.index_price != 0 ==> {
        let d = as_i64(m.mark_price_twap) - as_i64(m.index_price);
        i64::MIN <= d <= i64::MAX
    })
}

/// Settles one funding interval: the capped premium of the TWAP over the
/// index price, plus interest, is added to the cumulative funding rate.
/// Anyone may call it; at most once per `FUNDING_INTERVAL`.
pub fn crank_funding(market: &mut MarketState, market_index: u8, now: i64) -> (r: Result<FundingSettled, FundError>)
    requires
        crank_defined(*old(market), now),
    ensures
        match r {
            Ok(ev) => {
                &&& crank_rate(*old(market), now) is Ok
                &&& *final(market) == (MarketState {
                    cumulative_funding_rate: (old(market).cumulative_funding_rate + crank_rate(*old(market), now)->Ok_0) as i64,
                    last_funding_ts: now,
                    ..*old(market)
                })
                &&& ev == (FundingSettled {
                    market_index,
                    rate: crank_rate(*old(market), now)->Ok_0 as i64,
                    cumulative: final(market).cumulative_funding_rate,
                    mark_price: old(market).mark_price,
                    index_price: old(market).index_price,
                    ts: now,
                })
            },
            Err(e) => {
                &&& crank_rate(*old(market), now) == Err::<int, FundError>(e)
                &&& *final(market) == *old(market)
            },
        },
{
    if now - market.last_funding_ts < FUNDING_INTERVAL {
        return Err(FundError::TooSoon);
    }
    if market.index_price == 0 {
        return Err(FundError::NoIndex);
    }
    let mark = market.mark_price_twap as i64;
    let index = market.index_price as i64;
    let premium = match (mark - index).checked_mul(FUND_PREC) {
        Some(v) => v,
        None => return Err(FundError::Overflow),
    };
    let premium = match premium.checked_div(index) {
        Some(v) => v,
        None => return Err(FundError::Overflow),
    };
    let raw = match premium.checked_add(INTEREST) {
        Some(v) => v,
        None => return Err(FundError::Overflow),
    };
    let cap = MAX_RATE_BPS * FUND_PREC / 10_000;
    let rate = if raw < -cap { -cap } else if raw > cap { cap } else { raw };
    let cumulative = match market.cumulative_funding_rate.checked_add(rate) {
        Some(v) => v,
        None => return Err(FundError::Overflow),
    };
    market.cumulative_funding_rate = cumulative;
    market.last_funding_ts = now;
    Ok(FundingSettled {
        market_index,
        rate,
        cumulative: market.cumulative_funding_rate,
        mark_price: market.mark_price,
        index_price: market.index_price,
        ts: now,
    })
}

/// The instantaneous funding rate shown to users: zero without an index
/// price, else the capped premium of the mark price over the index, plus
/// interest.
pub open spec fn current_rate(m: MarketState) -> Result<int, FundError> {
    if m.index_price == 0 {
        Ok(0)
    } else {
        match premium(as_i64(m.mark_price), as_i64(m.index_price)) {
            None => Err(FundError::Overflow),
            Some(p) => Ok(capped(p + INTEREST)),
        }
    }
}

/// Whether reading the rate runs without aborting: the mark–index
/// difference, and the premium plus interest, fit in `i64`.
pub open spec fn current_rate_defined(m: MarketState) -> bool {
    m.index_price != 0 ==> {
        let d = as_i64(m.mark_price) - as_i64(m.index_price);
        &&& i64::MIN <= d <= i64::MAX
        &&& (premium(as_i64(m.mark_price), as_i64(m.index_price)) matches Some(p) ==> i64::MIN <= p + INTEREST <= i64::MAX)
    }
}

/// The current funding rate of a market (a read-only view).
pub fn get_funding_rate(market: &MarketState, market_index: u8) -> (r: Result<i64, FundError>)
    requires
        current_rate_defined(*market),
    ensures
        match r {
            Ok(v) => current_rate(*market) == Ok::<int, FundError>(v as int),
            Err(e) => current_rate(*market) == Err::<int, FundError>(e),
        },
{
    if market.index_price == 0 {
        return Ok(0);
    }
    let mark = market.mark_price as i64;
    let index = market.index_price as i64;
    let premium = match (mark - index).checked_mul(FUND_PREC) {
        Some(v) => v,
        None => return Err(FundError::Overflow),
    };
    let premium = match premium.checked_div(index) {
        Some(v) => v,
        None => return Err(FundError::Overflow),
    };
    let cap = MAX_RATE_BPS * FUND_PREC / 10_000;
    let raw = premium + INTEREST;
    Ok(if raw < -cap { -cap } else if raw > cap { cap } else { raw })
}

/// Whether `crank_funding` runs without aborting on these inputs (the
/// condition its `requires` states), for callers to test before calling.
pub fn crank_funding_defined(market: &MarketState, now: i64) -> (b: bool)
    ensures
        b == crank_defined(*market, now),
{
    let elapsed = match now.checked_sub(market.last_funding_ts) {
        Some(v) => v,
        None => return false,
    };
    if elapsed < FUNDING_INTERVAL || market.index_price == 0 {
        return true;
    }
    (market.mark_price_twap as i64).checked_sub(market.index_price as i64).is_some()
}

/// Whether `get_funding_rate` runs without aborting on this market (the
/// condition its `requires` states), for callers to test before calling.
pub fn get_funding_rate_defined(market: &MarketState) -> (b: bool)
    ensures
        b == current_rate_defined(*market),
{
    if market.index_price == 0 {
        return true;
    }
    let index = market.index_price as i64;
    let diff = match (market.mark_price as i64).checked_sub(index) {
        Some(v) => v,
        None => return false,
    };
    let premium = match diff.checked_mul(FUND_PREC) {
        Some(v) => v,
        None => return true,
    };
    match premium.checked_div(index) {
        Some(v) => v.checked_add(INTEREST).is_some(),
        None => true,
    }
}

// ── Laws ──────────────────────────────────────────────────────────────────

/// The funding rate is always within ±0.75% per interval, whether applied
/// by a crank or read as the current rate.
pub proof fn law_rate_is_capped(m: MarketState, now: i64)
    ensures
        crank_rate(m, now) matches Ok(r) ==> -rate_cap() <= r <= rate_cap(),
        current_rate(m) matches Ok(r) ==> -rate_cap() <= r <= rate_cap(),
        rate_cap() == 7_500_000,
{
}

/// After a crank, another crank at the same time fails: funding settles at
/// most once per interval.
pub proof fn law_crank_once_per_interval(m: MarketState, now: i64)
    requires
        crank_rate(m, now) is Ok,
    ensures
        crank_rate(
            MarketState {
                cumulative_funding_rate: (m.cumulative_funding_rate + crank_rate(m, now)->Ok_0) as i64,
                last_funding_ts: now,
                ..m
            },
            now,
        ) == Err::<int, FundError>(FundError::TooSoon),
{
}

/// When the TWAP equals the mark price, a crank applies exactly the rate
/// that `get_funding_rate` reports.
pub proof fn law_crank_applies_reported_rate(m: MarketState, now: i64)
    requires
        m.mark_price_twap == m.mark_price,
        crank_rate(m, now) is Ok,
    ensures
        current_rate(m) == crank_rate(m, now),
{
}

/// Who pays funding follows the premium: with the TWAP at the index the
/// rate is the interest term alone; above the index the rate is at least
/// that (longs pay more), below it at most that (shorts are paid more). The
/// rate is the premium `(twap - index) * FUND_PREC / index` (rounded toward
/// zero) plus interest, unless that is beyond the cap.
pub proof fn law_crank_rate_follows_premium(m: MarketState, now: i64)
    requires
        crank_rate(m, now) is Ok,
        m.mark_price_twap <= i64::MAX,
        m.index_price <= i64::MAX,
    ensures
        ({
            let r = crank_rate(m, now)->Ok_0;
            let raw = trunc_div((m.mark_price_twap - m.index_price) * 1_000_000_000, m.index_price as int) + 7_000;
            &&& (m.mark_price_twap == m.index_price ==> r == 7_000)
            &&& (m.mark_price_twap > m.index_price ==> r >= 7_000)
            &&& (m.mark_price_twap < m.index_price ==> r <= 7_000)
            &&& (-7_500_000 <= raw <= 7_500_000 ==> r == raw)
            &&& (raw > 7_500_000 ==> r == 7_500_000)
            &&& (raw < -7_500_000 ==> r == -7_500_000)
        }),
{
    let d = (m.mark_price_twap - m.index_price) * 1_000_000_000;
    let i = m.index_price as int;
    assert(as_i64(m.mark_price_twap) == m.mark_price_twap);
    assert(as_i64(m.index_price) == m.index_price);
    if d >= 0 {
        vstd::arithmetic::div_mod::lemma_div_pos_is_pos(d, i);
    } else {
        vstd::arithmetic::div_mod::lemma_div_pos_is_pos(-d, i);
    }
    if d == 0 {
        assert(trunc_div(0, i) == 0);
    }
}

} // verus!
