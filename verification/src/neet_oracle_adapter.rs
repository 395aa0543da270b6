//! The oracle adapter: picks an index price from Pyth, Switchboard or the
//! AMM's TWAP, and halts on implausible moves with two circuit breakers.

use vstd::prelude::*;
use crate::Pubkey;
use crate::arith::{bps_move, sat_mul_u64};

verus! {

/// Oldest acceptable age of an oracle reading, in seconds.
pub const STALE_SECS: i64 = 60;
/// Largest acceptable Pyth confidence interval, in basis points of price.
pub const CONF_BPS_MAX: u64 = 200;
/// Largest move, in basis points, allowed within 60 seconds (15%).
pub const CB_BPS_60S: u64 = 1500;
/// Largest move, in basis points, allowed against the hour's open (30%).
pub const CB_BPS_1H: u64 = 3000;

#[derive(Clone, Copy, Debug, PartialEq, Eq)]
pub struct OracleState {
    pub admin: Pubkey,
    pub paused: bool,
    pub last_price: u64,
    pub last_price_ts: i64,
    pub hour_open_price: u64,
    pub hour_open_ts: i64,
    pub bump: u8,
}

impl OracleState {
    pub const LEN: usize = 32 + 1 + 8 + 8 + 8 + 8 + 1;
}

/// The part of the AMM market account the adapter reads and writes.
#[derive(Clone, Copy, Debug, PartialEq, Eq)]
pub struct MarketRef {
    pub market_index: u8,
    pub _admin: Pubkey,
    pub base_reserve: u128,
    pub quote_reserve: u128,
    pub k: u128,
    pub sqrt_k: u128,
    pub mark_price: u64,
    pub mark_price_twap: u64,
    pub index_price: u64,
    pub _rest: [u8; 32],
    pub twap_last_ts: i64,
    pub bump: u8,
}

#[derive(Clone, Copy, Debug, PartialEq, Eq)]
pub struct PriceUpdated {
    pub index_price: u64,
    pub ts: i64,
}

#[derive(Clone, Copy, Debug, PartialEq, Eq)]
pub struct OracleFail {
    pub ts: i64,
}

#[derive(Clone, Copy, Debug, PartialEq, Eq)]
pub struct CircuitBreaker {
    pub old: u64,
    pub new: u64,
    pub bps: u64,
    pub ts: i64,
}

#[derive(Clone, Copy, Debug, PartialEq, Eq)]
pub struct HourlyHalt {
    pub open: u64,
    pub cur: u64,
    pub bps: u64,
    pub ts: i64,
}

#[derive(Clone, Copy, Debug, PartialEq, Eq, Structural)]
pub enum OracleError {
    AllFailed,
    CircuitBreaker,
    HourlyHalt,
}


/// Why a refresh halted the oracle, with the event it reports.
#[derive(Clone, Copy, Debug, PartialEq, Eq)]
pub enum OracleHalt {
    AllFailed(OracleFail),
    CircuitBreaker(CircuitBreaker),
    HourlyHalt(HourlyHalt),
}

impl OracleHalt {
    /// The error the refresh fails with.
    pub fn error(&self) -> (e: OracleError)
        ensures
            e == (match *self {
                OracleHalt::AllFailed(_) => OracleError::AllFailed,
                OracleHalt::CircuitBreaker(_) => OracleError::CircuitBreaker,
                OracleHalt::HourlyHalt(_) => OracleError::HourlyHalt,
            }),
    {
        match self {
            OracleHalt::AllFailed(_) => OracleError::AllFailed,
            OracleHalt::CircuitBreaker(_) => OracleError::CircuitBreaker,
            OracleHalt::HourlyHalt(_) => OracleError::HourlyHalt,
        }
    }
}

/// Sets up the adapter administered by `admin`: not paused, no price yet.
pub fn initialize(state: &mut OracleState, admin: Pubkey, bump: u8)
    ensures
        *final(state) == (OracleState {
            admin,
            paused: false,
            last_price: 0,
            last_price_ts: 0,
            hour_open_price: 0,
            hour_open_ts: 0,
            bump,
        }),
{
    state.admin = admin;
    state.paused = false;
    state.last_price = 0;
    state.last_price_ts = 0;
    state.hour_open_price = 0;
    state.hour_open_ts = 0;
    state.bump = bump;
}

/// Whether a Pyth confidence interval is tight enough: within
/// `CONF_BPS_MAX` of a nonzero price.
pub open spec fn confident(price: u64, conf: u64) -> bool {
    price > 0 && sat_mul_u64(conf as int, 10_000) / (price as int) <= CONF_BPS_MAX
}

/// Whether a Pyth reading's confidence interval is acceptable.
pub fn conf_ok(price: u64, conf: u64) -> (r: bool)
    ensures
        r == confident(price, conf),
{
    price > 0 && conf.saturating_mul(10_000) / price <= CONF_BPS_MAX
}

/// Basis points by which `b` differs from `a` (zero when `a` is zero).
pub fn move_bps(a: u64, b: u64) -> (r: u64)
    ensures
        r == bps_move(a as int, b as int),
{
    if a == 0 {
        return 0;
    }
    let d = if b > a { b - a } else { a - b };
    d.saturating_mul(10_000) / a
}

/// The index price source: a fresh, confident Pyth price, else a fresh
/// Switchboard price, else a TWAP updated within five minutes, else none.
pub open spec fn select_price(
    pyth_price: u64,
    pyth_conf: u64,
    pyth_ts: i64,
    sb_price: u64,
    sb_ts: i64,
    twap: u64,
    twap_ts: i64,
    now: i64,
) -> Option<u64> {
    if pyth_price > 0 && now - pyth_ts <= STALE_SECS && confident(pyth_price, pyth_conf) {
        Some(pyth_price)
    } else if sb_price > 0 && now - sb_ts <= STALE_SECS {
        Some(sb_price)
    } else if twap > 0 && now - twap_ts <= 300 {
        Some(twap)
    } else {
        None
    }
}

/// Whether the 60-second breaker trips: the last price is set, was taken
/// at most 60 seconds ago, and `p` is more than 15% away from it.
pub open spec fn breaker_trips(s: OracleState, p: u64, now: i64) -> bool {
    let secs = if now - s.last_price_ts < 1 { 1 } else { now - s.last_price_ts };
    s.last_price > 0 && secs <= 60 && bps_move(s.last_price as int, p as int) > CB_BPS_60S
}

/// The state after starting a new hour at `p` when the current one is at
/// least an hour old.
pub open spec fn roll_hour(s: OracleState, p: u64, now: i64) -> OracleState {
    if now - s.hour_open_ts >= 3600 {
        OracleState { hour_open_price: p, hour_open_ts: now, ..s }
    } else {
        s
    }
}

/// Whether the hourly halt trips: the hour's open is set and `p` is more
/// than 30% away from it.
pub open spec fn hourly_trips(s: OracleState, p: u64) -> bool {
    s.hour_open_price > 0 && bps_move(s.hour_open_price as int, p as int) > CB_BPS_1H
}

/// The adapter state after a refresh, and either the accepted index price
/// or the halt. Every halt pauses the adapter; an hourly halt also keeps
/// the hour roll-over that preceded it.
pub open spec fn refresh_spec(
    s: OracleState,
    m: MarketRef,
    pyth_price: u64,
    pyth_conf: u64,
    pyth_ts: i64,
    sb_price: u64,
    sb_ts: i64,
    now: i64,
) -> (OracleState, Result<u64, OracleHalt>) {
    match select_price(pyth_price, pyth_conf, pyth_ts, sb_price, sb_ts, m.mark_price_twap, m.twap_last_ts, now) {
        None => (OracleState { paused: true, ..s }, Err(OracleHalt::AllFailed(OracleFail { ts: now }))),
        Some(p) => {
            if breaker_trips(s, p, now) {
                (
                    OracleState { paused: true, ..s },
                    Err(OracleHalt::CircuitBreaker(CircuitBreaker {
                        old: s.last_price,
                        new: p,
                        bps: bps_move(s.last_price as int, p as int) as u64,
                        ts: now,
                    })),
                )
            } else {
                let s1 = roll_hour(s, p, now);
                if hourly_trips(s1, p) {
                    (
                        OracleState { paused: true, ..s1 },
                        Err(OracleHalt::HourlyHalt(HourlyHalt {
                            open: s1.hour_open_price,
                            cur: p,
                            bps: bps_move(s1.hour_open_price as int, p as int) as u64,
                            ts: now,
                        })),
                    )
                } else {
                    (OracleState { last_price: p, last_price_ts: now, ..s1 }, Ok(p))
                }
            }
        },
    }
}

/// `now - t` fits in `i64`.
pub open spec fn age_fits(now: i64, t: i64) -> bool {
    i64::MIN <= now - t <= i64::MAX
}

/// Whether a refresh runs without aborting: each age it computes, along
/// the path the checks take, fits in `i64`.
pub open spec fn refresh_defined(
    s: OracleState,
    m: MarketRef,
    pyth_price: u64,
    pyth_conf: u64,
    pyth_ts: i64,
    sb_price: u64,
    sb_ts: i64,
    now: i64,
) -> bool {
    let pyth_ok = pyth_price > 0 && now - pyth_ts <= STALE_SECS && confident(pyth_price, pyth_conf);
    let sb_ok = sb_price > 0 && now - sb_ts <= STALE_SECS;
    let sel = select_price(pyth_price, pyth_conf, pyth_ts, sb_price, sb_ts, m.mark_price_twap, m.twap_last_ts, now);
    &&& (pyth_price > 0 ==> age_fits(now, pyth_ts))
    &&& (!pyth_ok && sb_price > 0 ==> age_fits(now, sb_ts))
    &&& (!pyth_ok && !sb_ok && m.mark_price_twap > 0 ==> age_fits(now, m.twap_last_ts))
    &&& (sel is Some && s.last_price > 0 ==> age_fits(now, s.last_price_ts))
    &&& (sel is Some && !breaker_trips(s, sel->Some_0, now) ==> age_fits(now, s.hour_open_ts))
}

/// Refreshes a market's index price from keeper-supplied oracle readings
/// (a zero price means the source is unavailable). The chosen price must
/// pass the 60-second and hourly circuit breakers; when no source is usable
/// or a breaker trips, the adapter pauses and the refresh fails.
pub fn refresh_price(
    state: &mut OracleState,
    market: &mut MarketRef,
    _market_index: u8,
    pyth_price: u64,
    pyth_conf: u64,
    pyth_ts: i64,
    sb_price: u64,
    sb_ts: i64,
    now: i64,
) -> (r: Result<PriceUpdated, OracleHalt>)
    requires
        refresh_defined(*old(state), *old(market), pyth_price, pyth_conf, pyth_ts, sb_price, sb_ts, now),
    ensures
        ({
            let (s2, res) = refresh_spec(*old(state), *old(market), pyth_price, pyth_conf, pyth_ts, sb_price, sb_ts, now);
            &&& *final(state) == s2
            &&& match r {
                Ok(ev) => {
                    &&& res == Ok::<u64, OracleHalt>(ev.index_price)
                    &&& ev.ts == now
                    &&& *final(market) == (MarketRef { index_price: ev.index_price, ..*old(market) })
                },
                Err(h) => {
                    &&& res == Err::<u64, OracleHalt>(h)
                    &&& *final(market) == *old(market)
                },
            }
        }),
{
    let index_price = if pyth_price > 0 && now - pyth_ts <= STALE_SECS && conf_ok(pyth_price, pyth_conf) {
        pyth_price
    } else if sb_price > 0 && now - sb_ts <= STALE_SECS {
        sb_price
    } else if market.mark_price_twap > 0 && now - market.twap_last_ts <= 300 {
        market.mark_price_twap
    } else {
        state.paused = true;
        return Err(OracleHalt::AllFailed(OracleFail { ts: now }));
    };

    if state.last_price > 0 {
        let since = now - state.last_price_ts;
        let secs = (if since < 1 { 1 } else { since }) as u64;
        let bps = move_bps(state.last_price, index_price);
        if secs <= 60 && bps > CB_BPS_60S {
            state.paused = true;
            return Err(OracleHalt::CircuitBreaker(CircuitBreaker {
                old: state.last_price,
                new: index_price,
                bps,
                ts: now,
            }));
        }
    }

    if now - state.hour_open_ts >= 3600 {
        state.hour_open_price = index_price;
        state.hour_open_ts = now;
    }
    if state.hour_open_price > 0 {
        let bps = move_bps(state.hour_open_price, index_price);
        if bps > CB_BPS_1H {
            state.paused = true;
            return Err(OracleHalt::HourlyHalt(HourlyHalt {
                open: state.hour_open_price,
                cur: index_price,
                bps,
                ts: now,
            }));
        }
    }

    market.index_price = index_price;
    state.last_price = index_price;
    state.last_price_ts = now;
    Ok(PriceUpdated { index_price, ts: now })
}

/// Resumes the adapter after a halt.
pub fn unpause(state: &mut OracleState)
    ensures
        *final(state) == (OracleState { paused: false, ..*old(state) }),
{
    state.paused = false;
}

/// Whether `refresh_price` runs without aborting on these inputs (the
/// condition its `requires` states), for callers to test before calling.
pub fn refresh_price_defined(
    state: &OracleState,
    market: &MarketRef,
    pyth_price: u64,
    pyth_conf: u64,
    pyth_ts: i64,
    sb_price: u64,
    sb_ts: i64,
    now: i64,
) -> (b: bool)
    ensures
        b == refresh_defined(*state, *market, pyth_price, pyth_conf, pyth_ts, sb_price, sb_ts, now),
{
    if pyth_price > 0 && now.checked_sub(pyth_ts).is_none() {
        return false;
    }
    let pyth_ok = pyth_price > 0 && now - pyth_ts <= STALE_SECS && conf_ok(pyth_price, pyth_conf);
    if !pyth_ok && sb_price > 0 && now.checked_sub(sb_ts).is_none() {
        return false;
    }
    let sb_ok = !pyth_ok && sb_price > 0 && now - sb_ts <= STALE_SECS;
    let twap = market.mark_price_twap;
    if !pyth_ok && !sb_ok && twap > 0 && now.checked_sub(market.twap_last_ts).is_none() {
        return false;
    }
    let index_price = if pyth_ok {
        pyth_price
    } else if sb_ok {
        sb_price
    } else if twap > 0 && now - market.twap_last_ts <= 300 {
        twap
    } else {
        return true;
    };
    let mut tripped = false;
    if state.last_price > 0 {
        let since = match now.checked_sub(state.last_price_ts) {
            Some(v) => v,
            None => return false,
        };
        let secs = if since < 1 { 1 } else { since };
        tripped = secs <= 60 && move_bps(state.last_price, index_price) > CB_BPS_60S;
    }
    tripped || now.checked_sub(state.hour_open_ts).is_some()
}

// ── Laws ──────────────────────────────────────────────────────────────────

/// An accepted price is never more than 15% away from a last price taken
/// within the previous 60 seconds, nor more than 30% away from the hour's
/// open; it becomes the new last price.
pub proof fn law_accepted_price_within_breakers(
    s: OracleState,
    m: MarketRef,
    pyth_price: u64,
    pyth_conf: u64,
    pyth_ts: i64,
    sb_price: u64,
    sb_ts: i64,
    now: i64,
)
    requires
        refresh_spec(s, m, pyth_price, pyth_conf, pyth_ts, sb_price, sb_ts, now).1 is Ok,
    ensures
        ({
            let (s2, res) = refresh_spec(s, m, pyth_price, pyth_conf, pyth_ts, sb_price, sb_ts, now);
            let p = res->Ok_0;
            &&& (s.last_price > 0 && now - s.last_price_ts <= 60 ==> bps_move(s.last_price as int, p as int) <= CB_BPS_60S)
            &&& (s2.hour_open_price > 0 ==> bps_move(s2.hour_open_price as int, p as int) <= CB_BPS_1H)
            &&& s2.last_price == p
            &&& s2.last_price_ts == now
            &&& s2.paused == s.paused
        }),
{
}

/// Every failed refresh leaves the adapter paused.
pub proof fn law_failure_pauses(
    s: OracleState,
    m: MarketRef,
    pyth_price: u64,
    pyth_conf: u64,
    pyth_ts: i64,
    sb_price: u64,
    sb_ts: i64,
    now: i64,
)
    requires
        refresh_spec(s, m, pyth_price, pyth_conf, pyth_ts, sb_price, sb_ts, now).1 is Err,
    ensures
        refresh_spec(s, m, pyth_price, pyth_conf, pyth_ts, sb_price, sb_ts, now).0.paused,
{
}

/// Sources are tried in order: a fresh, confident Pyth price always wins,
/// and Switchboard is used only when Pyth is unusable.
pub proof fn law_source_priority(
    pyth_price: u64,
    pyth_conf: u64,
    pyth_ts: i64,
    sb_price: u64,
    sb_ts: i64,
    twap: u64,
    twap_ts: i64,
    now: i64,
)
    ensures
        pyth_price > 0 && now - pyth_ts <= STALE_SECS && confident(pyth_price, pyth_conf)
            ==> select_price(pyth_price, pyth_conf, pyth_ts, sb_price, sb_ts, twap, twap_ts, now) == Some(pyth_price),
        select_price(pyth_price, pyth_conf, pyth_ts, sb_price, sb_ts, twap, twap_ts, now) matches Some(p)
            ==> p == pyth_price || p == sb_price || p == twap,
        select_price(pyth_price, pyth_conf, pyth_ts, sb_price, sb_ts, twap, twap_ts, now) matches Some(p) ==> p > 0,
{
}

/// No stale or unusable reading is ever accepted: a refresh that succeeds
/// took either a nonzero Pyth price at most 60 s old with a confidence
/// interval within 2%, or a nonzero Switchboard price at most 60 s old, or
/// a nonzero TWAP updated at most 300 s ago; and when none of the three is
/// usable the refresh fails with `AllFailed`.
pub proof fn law_only_fresh_prices_accepted(
    s: OracleState,
    m: MarketRef,
    pyth_price: u64,
    pyth_conf: u64,
    pyth_ts: i64,
    sb_price: u64,
    sb_ts: i64,
    now: i64,
)
    ensures
        ({
            let res = refresh_spec(s, m, pyth_price, pyth_conf, pyth_ts, sb_price, sb_ts, now).1;
            let pyth_fresh = pyth_price > 0 && now - pyth_ts <= 60
                && (if pyth_conf * 10_000 > u64::MAX { u64::MAX as int } else { pyth_conf * 10_000 }) / (pyth_price as int) <= 200;
            let sb_fresh = sb_price > 0 && now - sb_ts <= 60;
            let twap_fresh = m.mark_price_twap > 0 && now - m.twap_last_ts <= 300;
            &&& (res matches Ok(p) ==> (pyth_fresh && p == pyth_price) || (sb_fresh && p == sb_price)
                || (twap_fresh && p == m.mark_price_twap))
            &&& (!pyth_fresh && !sb_fresh && !twap_fresh ==> res == Err::<u64, OracleHalt>(OracleHalt::AllFailed(OracleFail { ts: now })))
        }),
{
}

} // verus!
