//! The virtual AMM: a constant-product curve `base * quote = k` that prices
//! perpetual trades, with a time-weighted mark price.

use vstd::prelude::*;
use crate::Pubkey;
use crate::arith::bps_move;

verus! {

pub const PRICE_PRECISION: u128 = 1_000_000;
/// Largest move of the mark price one swap may cause, in basis points (2%).
pub const MAX_PRICE_IMPACT_BPS: u64 = 200;
/// Length of the TWAP window in seconds (15 minutes).
pub const TWAP_WINDOW: u64 = 900;

/// The state of one AMM market account.
#[derive(Clone, Copy, Debug, PartialEq, Eq)]
pub struct AmmMarket {
    pub market_index: u8,
    pub admin: Pubkey,
    pub base_reserve: u128,
    pub quote_reserve: u128,
    pub k: u128,
    pub sqrt_k: u128,
    pub mark_price: u64,
    pub mark_price_twap: u64,
    pub index_price: u64,
    pub total_longs: u64,
    pub total_shorts: u64,
    pub cumulative_funding_rate: i64,
    pub last_funding_ts: i64,
    pub twap_last_ts: i64,
    pub bump: u8,
}

impl AmmMarket {
    /// Serialized size of the account data, without the discriminator.
    pub const LEN: usize = 1 + 32 + 16 + 16 + 16 + 16 + 8 + 8 + 8 + 8 + 8 + 8 + 8 + 8 + 1;
}

#[derive(Clone, Copy, Debug, PartialEq, Eq)]
pub struct MarketCreated {
    pub market_index: u8,
    pub initial_price: u64,
    pub ts: i64,
}

#[derive(Clone, Copy, Debug, PartialEq, Eq)]
pub struct Swapped {
    pub market_index: u8,
    pub direction: bool,
    pub base_amount: u64,
    pub quote_amount: u64,
    pub new_mark_price: u64,
    pub ts: i64,
}

#[derive(Clone, Copy, Debug, PartialEq, Eq)]
pub struct KAdj {
    pub market_index: u8,
    pub old_sqrt_k: u128,
    pub new_sqrt_k: u128,
    pub ts: i64,
}

#[derive(Clone, Copy, Debug, PartialEq, Eq, Structural)]
pub enum AmmError {
    Overflow,
    Liquidity,
    Impact,
    Slippage,
    BadPrice,
}


// ── Integer square root ───────────────────────────────────────────────────

/// `r` is the integer square root of `n`: the largest `r` with `r * r <= n`.
pub open spec fn is_isqrt(n: int, r: int) -> bool {
    &&& r >= 0
    &&& r * r <= n
    &&& n < (r + 1) * (r + 1)
}

/// One Newton step from `x` never lands below the integer square root:
/// with `y = (x + n / x) / 2`, `(y + 1)^2 > n`.
proof fn lemma_newton_step_stays_above(n: int, x: int)
    requires
        n >= 1,
        x >= 1,
    ensures
        n < ((x + n / x) / 2 + 1) * ((x + n / x) / 2 + 1),
{
    let q = n / x;
    let t = (x + q) / 2 + 1;
    vstd::arithmetic::div_mod::lemma_fundamental_div_mod(n, x);
    vstd::arithmetic::div_mod::lemma_mod_pos_bound(n, x);
    assert(n < x * (q + 1)) by (nonlinear_arith)
        requires
            n == x * q + n % x,
            n % x < x,
            x >= 1,
    ;
    assert(q + 1 <= 2 * t - x);
    assert(x * (q + 1) <= x * (2 * t - x)) by (nonlinear_arith)
        requires
            q + 1 <= 2 * t - x,
            x >= 1,
    ;
    assert(x * (2 * t - x) <= t * t) by (nonlinear_arith);
}

/// A Newton iterate that does not decrease has reached the square root:
/// if `(x + n / x) / 2 >= x` then `x * x <= n`.
proof fn lemma_newton_fixed_point(n: int, x: int)
    requires
        n >= 0,
        x >= 1,
        (x + n / x) / 2 >= x,
    ensures
        x * x <= n,
{
    let q = n / x;
    vstd::arithmetic::div_mod::lemma_fundamental_div_mod(n, x);
    vstd::arithmetic::div_mod::lemma_mod_pos_bound(n, x);
    assert(q >= x);
    assert(x * q <= n);
    assert(x * x <= x * q) by (nonlinear_arith)
        requires
            q >= x,
            x >= 1,
    ;
}

/// The sum `x + n / x` of a Newton step stays within `n + 1`, and the next
/// iterate is at most `(n + 1) / 2`.
proof fn lemma_newton_sum_bound(n: int, x: int)
    requires
        n >= 1,
        1 <= x <= n,
        x == n || 2 * x <= n + 1,
    ensures
        x + n / x <= n + 1,
        2 * ((x + n / x) / 2) <= n + 1,
{
    if x == n {
        vstd::arithmetic::div_mod::lemma_div_by_self(n);
    } else if x == 1 {
    } else {
        vstd::arithmetic::div_mod::lemma_div_is_ordered_by_denominator(n, 2, x);
        assert(2 * (n / 2) <= n) by {
            vstd::arithmetic::div_mod::lemma_fundamental_div_mod(n, 2);
            vstd::arithmetic::div_mod::lemma_mod_pos_bound(n, 2);
        }
    }
}

/// Integer square root of `n` by Newton's method.
pub fn isqrt(n: u128) -> (r: u128)
    requires
        n < u128::MAX,
    ensures
        is_isqrt(n as int, r as int),
{
    if n == 0 {
        assert(is_isqrt(0, 0)) by (nonlinear_arith);
        return 0;
    }
    let mut x = n;
    let mut y = (x + 1) / 2;
    proof {
        vstd::arithmetic::div_mod::lemma_div_by_self(n as int);
        assert(n < (n + 1) * (n + 1)) by (nonlinear_arith)
            requires
                n >= 1,
        ;
    }
    while y < x
        invariant
            1 <= n < u128::MAX,
            1 <= x <= n,
            x == n || 2 * x <= n + 1,
            y == (x + n / x) / 2,
            n < (x + 1) * (x + 1),
        decreases x,
    {
        proof {
            lemma_newton_step_stays_above(n as int, x as int);
            lemma_newton_sum_bound(n as int, x as int);
        }
        x = y;
        proof {
            if x == 0 {
                assert((x + 1) * (x + 1) == 1) by (nonlinear_arith)
                    requires
                        x == 0,
                ;
            }
        }
        proof {
            lemma_newton_sum_bound(n as int, x as int);
        }
        y = (x + n / x) / 2;
    }
    proof {
        lemma_newton_fixed_point(n as int, x as int);
    }
    x
}

// ── Pricing rules ─────────────────────────────────────────────────────────

/// Quote reserve that prices `base` units at `price` (six decimals).
pub open spec fn initial_quote(base: int, price: int) -> int {
    (base * price) / (PRICE_PRECISION as int)
}

/// Mark price `quote * PRICE_PRECISION / base`, narrowed to `u64`; an
/// overflow of the scaled quote, or an empty base reserve, is an error.
pub open spec fn mark_price_of(quote: int, base: int) -> Result<u64, AmmError> {
    if quote * (PRICE_PRECISION as int) > u128::MAX {
        Err(AmmError::Overflow)
    } else if base == 0 {
        Err(AmmError::Overflow)
    } else {
        Ok(((quote * (PRICE_PRECISION as int)) / base) as u64)
    }
}

/// Reserves after trading `base` units along the curve `k`: the new base
/// reserve, the new quote reserve `k / new_base`, and the quote amount the
/// trader pays (long) or receives (short), before it is narrowed to `u64`.
pub open spec fn swap_reserves(m: AmmMarket, base: int, long: bool) -> Result<(int, int, int), AmmError> {
    if long {
        let nb = m.base_reserve - base;
        if nb < 0 {
            Err(AmmError::Liquidity)
        } else if nb == 0 {
            Err(AmmError::Overflow)
        } else if (m.k as int) / nb < m.quote_reserve {
            Err(AmmError::Overflow)
        } else {
            Ok((nb, (m.k as int) / nb, (m.k as int) / nb - m.quote_reserve))
        }
    } else {
        let nb = m.base_reserve + base;
        if nb > u128::MAX {
            Err(AmmError::Overflow)
        } else if nb == 0 {
            Err(AmmError::Overflow)
        } else if (m.k as int) / nb > m.quote_reserve {
            Err(AmmError::Liquidity)
        } else {
            Ok((nb, (m.k as int) / nb, m.quote_reserve - (m.k as int) / nb))
        }
    }
}

/// Whether a price breaks the trader's limit: above it for a long, below
/// it for a short; a zero limit means no limit.
pub open spec fn breaks_limit(mark: u64, limit: u64, long: bool) -> bool {
    limit > 0 && (if long { mark > limit } else { mark < limit })
}

/// `x + y`, saturating at `u64::MAX`.
pub open spec fn sat_add_u64(x: int, y: int) -> int {
    if x + y > u64::MAX { u64::MAX as int } else { x + y }
}

/// A swap up to, but not including, the TWAP update: the market with its
/// new reserves, mark price and open-interest totals, and the quote amount.
pub open spec fn swap_priced(m: AmmMarket, base_amount: u64, long: bool, price_limit: u64) -> Result<(AmmMarket, u64), AmmError> {
    match swap_reserves(m, base_amount as int, long) {
        Err(e) => Err(e),
        Ok((nb, nq, amount)) => match mark_price_of(nq, nb) {
            Err(e) => Err(e),
            Ok(mark) => {
                if bps_move(m.mark_price as int, mark as int) > MAX_PRICE_IMPACT_BPS {
                    Err(AmmError::Impact)
                } else if breaks_limit(mark, price_limit, long) {
                    Err(AmmError::Slippage)
                } else {
                    Ok((
                        AmmMarket {
                            base_reserve: nb as u128,
                            quote_reserve: nq as u128,
                            mark_price: mark,
                            total_longs: if long {
                                sat_add_u64(m.total_longs as int, base_amount as int) as u64
                            } else {
                                m.total_longs
                            },
                            total_shorts: if long {
                                m.total_shorts
                            } else {
                                sat_add_u64(m.total_shorts as int, base_amount as int) as u64
                            },
                            ..m
                        },
                        amount as u64,
                    ))
                }
            },
        },
    }
}

/// Weight of the new mark price in the TWAP: the seconds since the last
/// update, at least one and at most the window.
pub open spec fn twap_weight(last_ts: int, now: int) -> int {
    let elapsed = if now - last_ts < 1 { 1 } else { now - last_ts };
    if elapsed < TWAP_WINDOW { elapsed } else { TWAP_WINDOW as int }
}

/// `(twap * (WINDOW - w) + mark * w) / WINDOW`.
pub open spec fn blended_twap(twap: int, mark: int, w: int) -> int {
    (twap * (TWAP_WINDOW - w) + mark * w) / (TWAP_WINDOW as int)
}

/// The market after folding its mark price into the TWAP at time `now`.
pub open spec fn with_twap(m: AmmMarket, now: i64) -> AmmMarket {
    AmmMarket {
        mark_price_twap: blended_twap(
            m.mark_price_twap as int,
            m.mark_price as int,
            twap_weight(m.twap_last_ts as int, now as int),
        ) as u64,
        twap_last_ts: now,
        ..m
    }
}

/// The whole swap: the priced market with its TWAP brought up to `now`.
pub open spec fn swap_result(m: AmmMarket, base_amount: u64, long: bool, price_limit: u64, now: i64) -> Result<(AmmMarket, u64), AmmError> {
    match swap_priced(m, base_amount, long, price_limit) {
        Err(e) => Err(e),
        Ok((m2, q)) => Ok((with_twap(m2, now), q)),
    }
}

/// The market after `adjust_k`: both reserves rescaled by
/// `new_sqrt_k / sqrt_k`, `k` recomputed as their product.
pub open spec fn adjust_k_result(m: AmmMarket, new_sqrt_k: u64) -> Result<AmmMarket, AmmError> {
    let r = new_sqrt_k as int;
    if m.base_reserve * r > u128::MAX || m.quote_reserve * r > u128::MAX || m.sqrt_k == 0 {
        Err(AmmError::Overflow)
    } else {
        let nb = (m.base_reserve * r) / (m.sqrt_k as int);
        let nq = (m.quote_reserve * r) / (m.sqrt_k as int);
        if nb * nq > u128::MAX {
            Err(AmmError::Overflow)
        } else {
            Ok(AmmMarket {
                base_reserve: nb as u128,
                quote_reserve: nq as u128,
                k: (nb * nq) as u128,
                sqrt_k: r as u128,
                ..m
            })
        }
    }
}

// ── Instructions ──────────────────────────────────────────────────────────

/// Creates a market priced at `initial_price` with `base_reserve_init` on
/// the base side and the matching quote reserve; the mark, TWAP and index
/// prices all start at `initial_price`.
pub fn initialize_market(
    market: &mut AmmMarket,
    admin: Pubkey,
    bump: u8,
    market_index: u8,
    initial_price: u64,
    base_reserve_init: u64,
    now: i64,
) -> (r: Result<MarketCreated, AmmError>)
    requires
        base_reserve_init * initial_quote(base_reserve_init as int, initial_price as int) != u128::MAX,
    ensures
        ({
            let q = initial_quote(base_reserve_init as int, initial_price as int);
            let k = base_reserve_init * q;
            match r {
                Ok(ev) => {
                    &&& k <= u128::MAX
                    &&& final(market).market_index == market_index
                    &&& final(market).admin == admin
                    &&& final(market).base_reserve == base_reserve_init
                    &&& final(market).quote_reserve == q
                    &&& final(market).k == k
                    &&& is_isqrt(k, final(market).sqrt_k as int)
                    &&& final(market).mark_price == initial_price
                    &&& final(market).mark_price_twap == initial_price
                    &&& final(market).index_price == initial_price
                    &&& final(market).total_longs == 0
                    &&& final(market).total_shorts == 0
                    &&& final(market).cumulative_funding_rate == 0
                    &&& final(market).last_funding_ts == now
                    &&& final(market).twap_last_ts == now
                    &&& final(market).bump == bump
                    &&& ev == (MarketCreated { market_index, initial_price, ts: now })
                },
                Err(e) => {
                    &&& e == AmmError::Overflow
                    &&& k > u128::MAX
                    &&& *final(market) == *old(market)
                },
            }
        }),
{
    let base = base_reserve_init as u128;
    // A product of two u64 values always fits in u128.
    assert(base * (initial_price as u128) <= u128::MAX) by (nonlinear_arith)
        requires
            base <= u64::MAX,
            initial_price <= u64::MAX,
    ;
    let scaled = match base.checked_mul(initial_price as u128) {
        Some(v) => v,
        None => return Err(AmmError::Overflow),
    };
    let quote = match scaled.checked_div(PRICE_PRECISION) {
        Some(v) => v,
        None => return Err(AmmError::Overflow),
    };
    let k = match base.checked_mul(quote) {
        Some(v) => v,
        None => return Err(AmmError::Overflow),
    };
    let sqrt_k = isqrt(k);
    market.market_index = market_index;
    market.admin = admin;
    market.base_reserve = base;
    market.quote_reserve = quote;
    market.k = k;
    market.sqrt_k = sqrt_k;
    market.mark_price = initial_price;
    market.mark_price_twap = initial_price;
    market.index_price = initial_price;
    market.total_longs = 0;
    market.total_shorts = 0;
    market.cumulative_funding_rate = 0;
    market.last_funding_ts = now;
    market.twap_last_ts = now;
    market.bump = bump;
    Ok(MarketCreated { market_index, initial_price, ts: now })
}

/// Folds the current mark price into the TWAP, weighted by the seconds
/// since the last update (at least one, at most the window).
pub fn update_twap(m: &mut AmmMarket, now: i64)
    requires
        i64::MIN <= now - old(m).twap_last_ts <= i64::MAX,
    ensures
        *final(m) == with_twap(*old(m), now),
{
    let since = now - m.twap_last_ts;
    let elapsed = (if since < 1 { 1 } else { since }) as u64;
    let weight = if elapsed < TWAP_WINDOW { elapsed } else { TWAP_WINDOW };
    proof {
        vstd::arithmetic::mul::lemma_mul_upper_bound(
            m.mark_price_twap as int, u64::MAX as int, (TWAP_WINDOW - weight) as int, 900);
        vstd::arithmetic::mul::lemma_mul_upper_bound(
            m.mark_price as int, u64::MAX as int, weight as int, 900);
    }
    m.mark_price_twap = ((m.mark_price_twap as u128 * (TWAP_WINDOW - weight) as u128
        + m.mark_price as u128 * weight as u128) / TWAP_WINDOW as u128) as u64;
    m.twap_last_ts = now;
}

/// Basis points by which `new` differs from `old` (zero when `old` is
/// zero), the scaled difference saturating at `u64::MAX`.
pub fn price_impact_bps(old: u64, new: u64) -> (r: u64)
    ensures
        r == bps_move(old as int, new as int),
{
    if old == 0 {
        return 0;
    }
    let diff = if new > old { new - old } else { old - new };
    diff.saturating_mul(10_000) / old
}

/// Trades `base_amount` base units against the curve: a long buys them
/// (base reserve shrinks, the trader pays quote), a short sells them. The
/// result is the quote amount paid or received; the swap fails when the
/// mark price would move by more than 2% or past a nonzero `price_limit`.
pub fn swap_base_asset(
    market: &mut AmmMarket,
    market_index: u8,
    base_amount: u64,
    direction: bool,
    price_limit: u64,
    now: i64,
) -> (r: Result<(u64, Swapped), AmmError>)
    requires
        swap_priced(*old(market), base_amount, direction, price_limit) is Ok
            ==> i64::MIN <= now - old(market).twap_last_ts <= i64::MAX,
    ensures
        match r {
            Ok((quote_amount, ev)) => {
                &&& swap_result(*old(market), base_amount, direction, price_limit, now) == Ok::<(AmmMarket, u64), AmmError>((*final(market), quote_amount))
                &&& ev == (Swapped {
                    market_index,
                    direction,
                    base_amount,
                    quote_amount,
                    new_mark_price: final(market).mark_price,
                    ts: now,
                })
            },
            Err(e) => {
                &&& swap_result(*old(market), base_amount, direction, price_limit, now) == Err::<(AmmMarket, u64), AmmError>(e)
                &&& *final(market) == *old(market)
            },
        },
{
    let pre_p = market.mark_price;
    let base_u = base_amount as u128;

    let (new_base, new_quote, quote_amount) = if direction {
        let new_base = match market.base_reserve.checked_sub(base_u) {
            Some(v) => v,
            None => return Err(AmmError::Liquidity),
        };
        let new_quote = match market.k.checked_div(new_base) {
            Some(v) => v,
            None => return Err(AmmError::Overflow),
        };
        let cost = match new_quote.checked_sub(market.quote_reserve) {
            Some(v) => v,
            None => return Err(AmmError::Overflow),
        };
        (new_base, new_quote, cost as u64)
    } else {
        let new_base = match market.base_reserve.checked_add(base_u) {
            Some(v) => v,
            None => return Err(AmmError::Overflow),
        };
        let new_quote = match market.k.checked_div(new_base) {
            Some(v) => v,
            None => return Err(AmmError::Overflow),
        };
        let recv = match market.quote_reserve.checked_sub(new_quote) {
            Some(v) => v,
            None => return Err(AmmError::Liquidity),
        };
        (new_base, new_quote, recv as u64)
    };

    let scaled = match new_quote.checked_mul(PRICE_PRECISION) {
        Some(v) => v,
        None => return Err(AmmError::Overflow),
    };
    let mark = match scaled.checked_div(new_base) {
        Some(v) => v,
        None => return Err(AmmError::Overflow),
    } as u64;

    let impact = price_impact_bps(pre_p, mark);
    if impact > MAX_PRICE_IMPACT_BPS {
        return Err(AmmError::Impact);
    }
    if price_limit > 0 {
        if direction {
            if mark > price_limit {
                return Err(AmmError::Slippage);
            }
        } else {
            if mark < price_limit {
                return Err(AmmError::Slippage);
            }
        }
    }

    market.base_reserve = new_base;
    market.quote_reserve = new_quote;
    market.mark_price = mark;
    if direction {
        market.total_longs = market.total_longs.saturating_add(base_amount);
    } else {
        market.total_shorts = market.total_shorts.saturating_add(base_amount);
    }
    update_twap(market, now);
    Ok((quote_amount, Swapped {
        market_index,
        direction,
        base_amount,
        quote_amount,
        new_mark_price: market.mark_price,
        ts: now,
    }))
}

/// Sets the index price of a market; a zero price is refused.
pub fn update_index_price(market: &mut AmmMarket, index_price: u64) -> (r: Result<(), AmmError>)
    ensures
        r is Ok <==> index_price > 0,
        r is Ok ==> *final(market) == (AmmMarket { index_price, ..*old(market) }),
        r is Err ==> r == Err::<(), AmmError>(AmmError::BadPrice) && *final(market) == *old(market),
{
    if index_price == 0 {
        return Err(AmmError::BadPrice);
    }
    market.index_price = index_price;
    Ok(())
}

/// Rescales the curve to a new `sqrt_k`: both reserves are multiplied by
/// `new_sqrt_k / sqrt_k` and `k` becomes their product, so the mark price
/// is (up to rounding) unchanged.
pub fn adjust_k(market: &mut AmmMarket, market_index: u8, new_sqrt_k: u64, now: i64) -> (r: Result<KAdj, AmmError>)
    ensures
        match r {
            Ok(ev) => {
                &&& adjust_k_result(*old(market), new_sqrt_k) == Ok::<AmmMarket, AmmError>(*final(market))
                &&& ev == (KAdj {
                    market_index,
                    old_sqrt_k: old(market).sqrt_k,
                    new_sqrt_k: new_sqrt_k as u128,
                    ts: now,
                })
            },
            Err(e) => {
                &&& adjust_k_result(*old(market), new_sqrt_k) == Err::<AmmMarket, AmmError>(e)
                &&& *final(market) == *old(market)
            },
        },
{
    let old_sqrt = market.sqrt_k;
    let r = new_sqrt_k as u128;
    let base = match market.base_reserve.checked_mul(r) {
        Some(v) => v,
        None => return Err(AmmError::Overflow),
    };
    let base = match base.checked_div(old_sqrt) {
        Some(v) => v,
        None => return Err(AmmError::Overflow),
    };
    let quote = match market.quote_reserve.checked_mul(r) {
        Some(v) => v,
        None => return Err(AmmError::Overflow),
    };
    let quote = match quote.checked_div(old_sqrt) {
        Some(v) => v,
        None => return Err(AmmError::Overflow),
    };
    let k = match base.checked_mul(quote) {
        Some(v) => v,
        None => return Err(AmmError::Overflow),
    };
    market.base_reserve = base;
    market.quote_reserve = quote;
    market.k = k;
    market.sqrt_k = r;
    Ok(KAdj { market_index, old_sqrt_k: old_sqrt, new_sqrt_k: market.sqrt_k, ts: now })
}

/// Whether `swap_base_asset` runs without aborting on these inputs (the
/// condition its `requires` states), for callers to test before calling.
pub fn swap_base_asset_defined(market: &AmmMarket, base_amount: u64, direction: bool, price_limit: u64, now: i64) -> (b: bool)
    ensures
        b == (swap_priced(*market, base_amount, direction, price_limit) is Ok
            ==> i64::MIN <= now - market.twap_last_ts <= i64::MAX),
{
    if now.checked_sub(market.twap_last_ts).is_some() {
        return true;
    }
    // Try the swap at a TWAP clock of `now`: pricing does not read the clock.
    let mut probe = *market;
    probe.twap_last_ts = now;
    swap_base_asset(&mut probe, 0, base_amount, direction, price_limit, now).is_err()
}

// ── Laws ──────────────────────────────────────────────────────────────────

/// A successful swap keeps `k` and leaves the reserves on the curve from
/// below: `base * quote <= k < base * (quote + 1)`.
pub proof fn law_swap_stays_on_curve(m: AmmMarket, base_amount: u64, long: bool, price_limit: u64, now: i64)
    requires
        swap_result(m, base_amount, long, price_limit, now) is Ok,
    ensures
        ({
            let m2 = swap_result(m, base_amount, long, price_limit, now)->Ok_0.0;
            &&& m2.k == m.k
            &&& m2.base_reserve * m2.quote_reserve <= m.k
            &&& m.k < m2.base_reserve * (m2.quote_reserve + 1)
        }),
{
    let (nb, nq, amt) = swap_reserves(m, base_amount as int, long)->Ok_0;
    vstd::arithmetic::div_mod::lemma_fundamental_div_mod(m.k as int, nb);
    vstd::arithmetic::div_mod::lemma_mod_pos_bound(m.k as int, nb);
    assert(nb * nq <= m.k && m.k < nb * (nq + 1)) by (nonlinear_arith)
        requires
            nq == (m.k as int) / nb,
            m.k == nb * ((m.k as int) / nb) + (m.k as int) % nb,
            0 <= (m.k as int) % nb < nb,
    ;
}

/// A successful swap moves the mark price by at most 2%, and never past
/// the trader's nonzero price limit.
pub proof fn law_swap_bounded_price_move(m: AmmMarket, base_amount: u64, long: bool, price_limit: u64, now: i64)
    requires
        swap_result(m, base_amount, long, price_limit, now) is Ok,
    ensures
        ({
            let m2 = swap_result(m, base_amount, long, price_limit, now)->Ok_0.0;
            &&& bps_move(m.mark_price as int, m2.mark_price as int) <= MAX_PRICE_IMPACT_BPS
            &&& (price_limit > 0 && long ==> m2.mark_price <= price_limit)
            &&& (price_limit > 0 && !long ==> m2.mark_price >= price_limit)
        }),
{
}

/// A long takes exactly `base_amount` out of the base reserve and adds the
/// quote it pays to the quote reserve; a short does the reverse. The quote
/// amount returned is that change of the quote reserve whenever it fits in
/// a `u64`.
pub proof fn law_swap_moves_reserves(m: AmmMarket, base_amount: u64, long: bool, price_limit: u64, now: i64)
    requires
        swap_result(m, base_amount, long, price_limit, now) is Ok,
    ensures
        ({
            let (m2, q) = swap_result(m, base_amount, long, price_limit, now)->Ok_0;
            let paid = if long { m2.quote_reserve - m.quote_reserve } else { m.quote_reserve - m2.quote_reserve };
            &&& long ==> m2.base_reserve + base_amount == m.base_reserve
            &&& !long ==> m2.base_reserve == m.base_reserve + base_amount
            &&& paid >= 0
            &&& (paid <= u64::MAX ==> q == paid)
            &&& (long ==> m2.total_longs == sat_add_u64(m.total_longs as int, base_amount as int))
            &&& (!long ==> m2.total_shorts == sat_add_u64(m.total_shorts as int, base_amount as int))
        }),
{
}

/// The TWAP after an update is a weighted average of the old TWAP and the
/// mark price, so it lies between the two (and never needs narrowing).
pub proof fn law_twap_between(m: AmmMarket, now: i64)
    ensures
        ({
            let w = twap_weight(m.twap_last_ts as int, now as int);
            let t = blended_twap(m.mark_price_twap as int, m.mark_price as int, w);
            &&& (m.mark_price_twap <= m.mark_price ==> m.mark_price_twap <= t <= m.mark_price)
            &&& (m.mark_price <= m.mark_price_twap ==> m.mark_price <= t <= m.mark_price_twap)
            &&& with_twap(m, now).mark_price_twap == t
        }),
{
    let w = twap_weight(m.twap_last_ts as int, now as int);
    let a = m.mark_price_twap as int;
    let b = m.mark_price as int;
    let lo = if a <= b { a } else { b };
    let hi = if a <= b { b } else { a };
    assert(lo * 900 <= a * (900 - w) + b * w <= hi * 900) by (nonlinear_arith)
        requires
            1 <= w <= 900,
            lo <= a <= hi,
            lo <= b <= hi,
    ;
    vstd::arithmetic::div_mod::lemma_div_is_ordered(lo * 900, a * (900 - w) + b * w, 900);
    vstd::arithmetic::div_mod::lemma_div_is_ordered(a * (900 - w) + b * w, hi * 900, 900);
    vstd::arithmetic::div_mod::lemma_div_multiples_vanish(lo, 900);
    vstd::arithmetic::div_mod::lemma_div_multiples_vanish(hi, 900);
    assert(lo * 900 == 900 * lo);
    assert(hi * 900 == 900 * hi);
}

/// On a curve whose `k` is exactly `base * quote`, a long of `b` followed
/// by a short of `b` puts both reserves back where they were, and the short
/// receives exactly what the long paid.
pub proof fn law_long_then_short_round_trip(
    m: AmmMarket,
    b: u64,
    limit1: u64,
    now1: i64,
    limit2: u64,
    now2: i64,
)
    requires
        m.k == m.base_reserve * m.quote_reserve,
        swap_result(m, b, true, limit1, now1) is Ok,
        swap_result(swap_result(m, b, true, limit1, now1)->Ok_0.0, b, false, limit2, now2) is Ok,
    ensures
        ({
            let m1 = swap_result(m, b, true, limit1, now1)->Ok_0.0;
            let m2 = swap_result(m1, b, false, limit2, now2)->Ok_0.0;
            &&& m2.base_reserve == m.base_reserve
            &&& m2.quote_reserve == m.quote_reserve
            &&& m1.quote_reserve - m.quote_reserve == m1.quote_reserve - m2.quote_reserve
        }),
{
    let m1 = swap_result(m, b, true, limit1, now1)->Ok_0.0;
    assert(m1.base_reserve + b == m.base_reserve);
    assert(m.base_reserve > 0);
    vstd::arithmetic::div_mod::lemma_div_multiples_vanish(m.quote_reserve as int, m.base_reserve as int);
    assert((m.k as int) / (m.base_reserve as int) == m.quote_reserve);
}

/// A successful `adjust_k` leaves the market exactly on its new curve:
/// `k == base * quote`, with `sqrt_k` the requested value.
pub proof fn law_adjust_k_exact_curve(m: AmmMarket, new_sqrt_k: u64)
    requires
        adjust_k_result(m, new_sqrt_k) is Ok,
    ensures
        ({
            let m2 = adjust_k_result(m, new_sqrt_k)->Ok_0;
            &&& m2.k == m2.base_reserve * m2.quote_reserve
            &&& m2.sqrt_k == new_sqrt_k
        }),
{
}

/// `adjust_k` multiplies each reserve by `new_sqrt_k / sqrt_k` with one
/// truncation at the end (`reserve * new_sqrt_k / sqrt_k`), sets
/// `k = base * quote` and `sqrt_k = new_sqrt_k`, and leaves the rest of the
/// market alone; it fails only when `sqrt_k` is zero or a product overflows.
pub proof fn law_adjust_k_rescales_reserves(m: AmmMarket, new_sqrt_k: u64)
    ensures
        ({
            let r = new_sqrt_k as int;
            let ok = m.sqrt_k != 0 && m.base_reserve * r <= u128::MAX && m.quote_reserve * r <= u128::MAX
                && ((m.base_reserve * r) / (m.sqrt_k as int)) * ((m.quote_reserve * r) / (m.sqrt_k as int)) <= u128::MAX;
            &&& (adjust_k_result(m, new_sqrt_k) is Ok <==> ok)
            &&& (adjust_k_result(m, new_sqrt_k) matches Ok(m2) ==> {
                &&& m2.base_reserve == (m.base_reserve * r) / (m.sqrt_k as int)
                &&& m2.quote_reserve == (m.quote_reserve * r) / (m.sqrt_k as int)
                &&& m2.k == m2.base_reserve * m2.quote_reserve
                &&& m2.sqrt_k == new_sqrt_k
                &&& m2.mark_price == m.mark_price
                &&& m2.index_price == m.index_price
                &&& m2.mark_price_twap == m.mark_price_twap
            })
        }),
{
}

/// Scaling the curve up by a whole factor scales both reserves by exactly
/// that factor, so the price `quote / base` is unchanged.
pub proof fn law_adjust_k_whole_factor(m: AmmMarket, factor: u64)
    requires
        m.sqrt_k > 0,
        m.sqrt_k * factor <= u64::MAX,
        adjust_k_result(m, (m.sqrt_k * factor) as u64) is Ok,
    ensures
        ({
            let m2 = adjust_k_result(m, (m.sqrt_k * factor) as u64)->Ok_0;
            &&& m2.base_reserve == m.base_reserve * factor
            &&& m2.quote_reserve == m.quote_reserve * factor
        }),
{
    let s = m.sqrt_k as int;
    let f = factor as int;
    assert(m.base_reserve * (s * f) == s * (m.base_reserve * f)) by (nonlinear_arith);
    assert(m.quote_reserve * (s * f) == s * (m.quote_reserve * f)) by (nonlinear_arith);
    vstd::arithmetic::div_mod::lemma_div_multiples_vanish(m.base_reserve * f, s);
    vstd::arithmetic::div_mod::lemma_div_multiples_vanish(m.quote_reserve * f, s);
}

/// After a swap the mark price is the new quote reserve per unit of base,
/// scaled by `PRICE_PRECISION` and rounded down (when it fits in `u64`).
pub proof fn law_swap_mark_is_reserve_ratio(m: AmmMarket, base_amount: u64, long: bool, price_limit: u64, now: i64)
    requires
        swap_result(m, base_amount, long, price_limit, now) is Ok,
    ensures
        ({
            let m2 = swap_result(m, base_amount, long, price_limit, now)->Ok_0.0;
            let exact = (m2.quote_reserve * 1_000_000int) / (m2.base_reserve as int);
            &&& m2.base_reserve > 0
            &&& exact <= u64::MAX ==> {
                &&& m2.mark_price * m2.base_reserve <= m2.quote_reserve * 1_000_000
                &&& m2.quote_reserve * 1_000_000 < (m2.mark_price + 1) * m2.base_reserve
            }
        }),
{
    let m2 = swap_result(m, base_amount, long, price_limit, now)->Ok_0.0;
    let x = m2.quote_reserve * 1_000_000int;
    let b = m2.base_reserve as int;
    vstd::arithmetic::div_mod::lemma_fundamental_div_mod(x, b);
    vstd::arithmetic::div_mod::lemma_mod_pos_bound(x, b);
    if x / b <= u64::MAX {
        assert((x / b) * b <= x < (x / b + 1) * b) by (nonlinear_arith)
            requires
                x == b * (x / b) + x % b,
                0 <= x % b < b,
        ;
    }
}

/// A TWAP update after a full window or more replaces the TWAP with the
/// mark price; one within the window moves it toward the mark in proportion
/// to the seconds elapsed (at least one).
pub proof fn law_twap_full_window(m: AmmMarket, now: i64)
    ensures
        now - m.twap_last_ts >= TWAP_WINDOW ==> with_twap(m, now).mark_price_twap == m.mark_price,
        now - m.twap_last_ts <= 1 ==> with_twap(m, now).mark_price_twap
            == (m.mark_price_twap * 899 + m.mark_price as int) / 900,
{
    law_twap_between(m, now);
    if now - m.twap_last_ts <= 1 {
        let w = twap_weight(m.twap_last_ts as int, now as int);
        assert(w == 1);
        assert(m.mark_price_twap * (TWAP_WINDOW - w) + m.mark_price * w == m.mark_price_twap * 899 + m.mark_price as int)
            by (nonlinear_arith)
            requires
                w == 1,
                TWAP_WINDOW == 900,
        ;
    }
    if now - m.twap_last_ts >= TWAP_WINDOW {
        assert(m.mark_price_twap * 0 + m.mark_price * 900 == 900 * m.mark_price) by (nonlinear_arith);
        vstd::arithmetic::div_mod::lemma_div_multiples_vanish(m.mark_price as int, 900);
    }
}

} // verus!
