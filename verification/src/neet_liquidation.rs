//! Liquidation: a keeper closes part or all of a position whose equity has
//! fallen below the maintenance margin.

use vstd::prelude::*;
use crate::Pubkey;
use crate::arith::{as_i64, sat_i64, trunc_div};
use crate::neet_clearing_house::{
    free_slots_empty, SlotQuery, closed_position, empty_position, entry_price_of, first_slot, lemma_first_slot, notional_of,
    released_margin,
};

pub use crate::neet_clearing_house::{Direction, MarketState, Position, UserAccount};

verus! {

/// Maintenance margin in basis points of notional (2.5%).
pub const MAINT_BPS: u64 = 250;
/// Liquidation fee in basis points of the closed notional (1%).
pub const LIQ_FEE_BPS: u64 = 100;
pub const PRICE_PREC: u64 = 1_000_000;
pub const MAX_POS: usize = 8;
pub const FUND_PREC: i64 = 1_000_000_000;

#[derive(Clone, Copy, Debug, PartialEq, Eq)]
pub struct Liquidated {
    pub user: Pubkey,
    pub keeper: Pubkey,
    pub market_index: u8,
    pub close_base: u64,
    pub closed_notional: u64,
    pub close_pnl: i64,
    pub liq_fee: u64,
    pub keeper_rw: u64,
    pub was_full: bool,
    pub ts: i64,
}

#[derive(Clone, Copy, Debug, PartialEq, Eq)]
pub struct BadDebt {
    pub user: Pubkey,
    pub market: u8,
    pub deficit: u64,
    pub ts: i64,
}

#[derive(Clone, Copy, Debug, PartialEq, Eq, Structural)]
pub enum LiqError {
    NotLiquidatable,
    NoPos,
    Overflow,
}


// ── Health ────────────────────────────────────────────────────────────────

/// The position a liquidation acts on: the user's first open position in
/// the market.
pub open spec fn liq_position(u: UserAccount, mkt: u8) -> Position {
    u.positions@[first_slot(u.positions@, SlotQuery::Open(mkt), 0)->Some_0]
}

/// How far the mark price has moved in the position's favour from its
/// entry price, in `i64` arithmetic.
pub open spec fn price_gap(p: Position, mark: u64) -> int {
    let e = as_i64(entry_price_of(p) as u64);
    match p.direction {
        Direction::Long => as_i64(mark) - e,
        Direction::Short => e - as_i64(mark),
    }
}

/// Unrealised PnL of `amount` units: `gap * amount / PRICE_PREC`, rounded
/// toward zero.
pub open spec fn liq_pnl(p: Position, amount: u64, mark: u64) -> int {
    trunc_div(price_gap(p, mark) * as_i64(amount), PRICE_PREC as int)
}

/// Whether `liq_pnl` is computable in `i64` (else the program aborts).
pub open spec fn liq_pnl_fits(p: Position, amount: u64, mark: u64) -> bool {
    &&& i64::MIN <= price_gap(p, mark) <= i64::MAX
    &&& i64::MIN <= price_gap(p, mark) * as_i64(amount) <= i64::MAX
}

/// Equity: collateral plus PnL, saturating in `i64`, floored at zero.
pub open spec fn equity_of(collateral: u64, pnl: int) -> int {
    let e = sat_i64(as_i64(collateral) + pnl);
    if e < 0 { 0 } else { e }
}

/// Maintenance margin of a notional (2.5%, rounded down).
pub open spec fn maint_margin(notional: int) -> int {
    notional * (MAINT_BPS as int) / 10_000
}

/// Whether the user's position in the market is below maintenance: its
/// equity is less than the maintenance margin of its notional.
pub open spec fn below_maintenance(u: UserAccount, mark: u64, mkt: u8) -> bool {
    let p = liq_position(u, mkt);
    equity_of(u.collateral, liq_pnl(p, p.base_amount, mark)) < maint_margin(notional_of(p.base_amount as int, mark as int))
}

/// Whether the health check runs without aborting: the PnL fits in `i64`
/// and the maintenance margin's product in `u64`.
pub open spec fn health_defined(u: UserAccount, mark: u64, mkt: u8) -> bool {
    let p = liq_position(u, mkt);
    first_slot(u.positions@, SlotQuery::Open(mkt), 0) is Some ==> {
        &&& liq_pnl_fits(p, p.base_amount, mark)
        &&& notional_of(p.base_amount as int, mark as int) * (MAINT_BPS as int) <= u64::MAX
    }
}

/// Whether the user's position in the market can be liquidated (a
/// read-only view): there is one, and it is below maintenance.
pub fn is_liquidatable(user: &UserAccount, market: &MarketState, market_index: u8) -> (r: bool)
    requires
        health_defined(*user, market.mark_price, market_index),
    ensures
        r == (first_slot(user.positions@, SlotQuery::Open(market_index), 0) is Some
            && below_maintenance(*user, market.mark_price, market_index)),
{
    let mark = market.mark_price;
    let idx = match crate::neet_clearing_house::find_pos(user, market_index) {
        Some(i) => i,
        None => return false,
    };
    proof {
        lemma_first_slot(user.positions@, SlotQuery::Open(market_index), 0);
    }
    let pos = user.positions[idx];
    let notional = notional_u64(pos.base_amount, mark);
    let entry = entry_price(&pos);
    let pnl: i64 = match pos.direction {
        Direction::Long => (mark as i64 - entry as i64) * pos.base_amount as i64 / PRICE_PREC as i64,
        Direction::Short => (entry as i64 - mark as i64) * pos.base_amount as i64 / PRICE_PREC as i64,
    };
    let equity = equity(user.collateral, pnl);
    let mm = notional * MAINT_BPS / 10_000;
    equity < mm
}

/// `base * price / PRICE_PREC` narrowed to `u64`.
fn notional_u64(base: u64, price: u64) -> (r: u64)
    ensures
        r == notional_of(base as int, price as int),
{
    assert((base as u128) * (price as u128) <= u128::MAX) by (nonlinear_arith)
        requires
            base <= u64::MAX,
            price <= u64::MAX,
    ;
    ((base as u128) * (price as u128) / (PRICE_PREC as u128)) as u64
}

/// Average entry price of an open position, narrowed to `u64`.
fn entry_price(p: &Position) -> (r: u64)
    requires
        p.base_amount > 0,
    ensures
        r == entry_price_of(*p),
{
    assert((p.quote_amount as u128) * (PRICE_PREC as u128) <= u128::MAX) by (nonlinear_arith)
        requires
            p.quote_amount <= u64::MAX,
    ;
    ((p.quote_amount as u128) * (PRICE_PREC as u128) / (p.base_amount as u128)) as u64
}

/// Collateral plus PnL, saturating, floored at zero, as a `u64`.
fn equity(collateral: u64, pnl: i64) -> (r: u64)
    ensures
        r == equity_of(collateral, pnl as int),
{
    let e = (collateral as i64).saturating_add(pnl);
    (if e < 0 { 0 } else { e }) as u64
}

// ── Liquidation ───────────────────────────────────────────────────────────

/// Share of the position to close, in basis points: the shortfall below
/// maintenance relative to the room between initial and maintenance
/// margin, at most 100%.
pub open spec fn close_fraction_bps(notional: int, mm: int, equity: int, leverage: u64) -> int {
    let im = notional / (if leverage < 1 { 1int } else { leverage as int });
    let room = if im - mm < 1 { 1int } else { im - mm };
    let deficit = if mm - equity < 0 { 0int } else { mm - equity };
    let frac = deficit * 10_000 / room;
    if frac < 10_000 { frac } else { 10_000 }
}

/// Base units a liquidation closes: the fraction of the position, at
/// least one unit and at most all of it.
pub open spec fn liq_close_base(base: u64, frac: int) -> int {
    let cb = (base * frac) / 10_000;
    let cb1 = if cb < 1 { 1 } else { cb };
    if cb1 < base { cb1 } else { base as int }
}

/// The liquidation fee on a closed notional (1%, rounded down).
pub open spec fn liq_fee_of(closed_notional: int) -> int {
    closed_notional * (LIQ_FEE_BPS as int) / 10_000
}

/// The terms of liquidating the user's position at `mark`: the base
/// closed, its notional, its PnL, the fee, the margin released and the net
/// credited (positive) or debited (negative).
pub open spec fn liq_close_base_of(u: UserAccount, mark: u64, mkt: u8) -> int {
    let p = liq_position(u, mkt);
    let notional = notional_of(p.base_amount as int, mark as int);
    let mm = maint_margin(notional);
    let eq = equity_of(u.collateral, liq_pnl(p, p.base_amount, mark));
    liq_close_base(p.base_amount, close_fraction_bps(notional, mm, eq, p.leverage))
}

pub open spec fn liq_net(u: UserAccount, mark: u64, mkt: u8) -> int {
    let p = liq_position(u, mkt);
    let cb = liq_close_base_of(u, mark, mkt) as u64;
    let fee = liq_fee_of(notional_of(cb as int, mark as int));
    sat_i64(sat_i64(as_i64(released_margin(p, cb) as u64) + liq_pnl(p, cb, mark)) - fee)
}

/// Whether a liquidation succeeds: there is a position, its maintenance
/// margin is computable, and it is below maintenance.
pub open spec fn liq_plan(u: UserAccount, mark: u64, mkt: u8) -> Result<(), LiqError> {
    let p = liq_position(u, mkt);
    let notional = notional_of(p.base_amount as int, mark as int);
    if first_slot(u.positions@, SlotQuery::Open(mkt), 0) is None {
        Err(LiqError::NoPos)
    } else if notional * (MAINT_BPS as int) > u64::MAX {
        Err(LiqError::Overflow)
    } else if !below_maintenance(u, mark, mkt) {
        Err(LiqError::NotLiquidatable)
    } else {
        Ok(())
    }
}

/// Whether a liquidation runs without aborting: the PnLs fit in `i64`,
/// the fee and released margin products fit in `u64`, and a negative net
/// can be negated.
pub open spec fn liquidate_defined(u: UserAccount, mark: u64, mkt: u8) -> bool {
    let p = liq_position(u, mkt);
    let cb = liq_close_base_of(u, mark, mkt) as u64;
    first_slot(u.positions@, SlotQuery::Open(mkt), 0) is Some ==> {
        &&& liq_pnl_fits(p, p.base_amount, mark)
        &&& (liq_plan(u, mark, mkt) is Ok ==> {
            &&& notional_of(cb as int, mark as int) * (LIQ_FEE_BPS as int) <= u64::MAX
            &&& liq_pnl_fits(p, cb, mark)
            &&& p.open_notional * cb <= u64::MAX
            &&& liq_net(u, mark, mkt) != i64::MIN
        })
    }
}

/// Collateral after a liquidation credits or debits `net`; a loss beyond
/// the collateral leaves zero.
pub open spec fn collateral_after_liq(c: int, net: int) -> int {
    if net >= 0 {
        if c + net > u64::MAX { u64::MAX as int } else { c + net }
    } else if -net > c {
        0
    } else {
        c + net
    }
}

/// Liquidates the user's first open position in a market when its equity
/// is below the maintenance margin: closes a share of it proportional to
/// the shortfall (at least one unit, at most all), charges a 1% fee on the
/// closed notional (half of it the keeper's reward), and settles released
/// margin plus PnL minus fee into collateral, reporting bad debt when the
/// loss exceeds the collateral.
pub fn liquidate(
    user: &mut UserAccount,
    market: &MarketState,
    market_index: u8,
    keeper: Pubkey,
    now: i64,
) -> (r: Result<(Option<BadDebt>, Liquidated), LiqError>)
    requires
        liquidate_defined(*old(user), market.mark_price, market_index),
    ensures
        ({
            let mark = market.mark_price;
            let idx = first_slot(old(user).positions@, SlotQuery::Open(market_index), 0)->Some_0;
            let p = liq_position(*old(user), market_index);
            let cb = liq_close_base_of(*old(user), mark, market_index);
            let cn = notional_of(cb, mark as int);
            let fee = liq_fee_of(cn);
            let net = liq_net(*old(user), mark, market_index);
            let rel = released_margin(p, cb as u64);
            match r {
                Ok((bad_debt, ev)) => {
                    &&& liq_plan(*old(user), mark, market_index) is Ok
                    &&& final(user).collateral == collateral_after_liq(old(user).collateral as int, net)
                    &&& final(user).margin_used == (if old(user).margin_used < rel { 0 } else { old(user).margin_used - rel })
                    &&& final(user).positions@ == old(user).positions@.update(idx, closed_position(p, cb as u64, cn))
                    &&& final(user).authority == old(user).authority
                    &&& final(user).realised_pnl == old(user).realised_pnl
                    &&& final(user).bump == old(user).bump
                    &&& bad_debt == (if net < 0 && -net > old(user).collateral {
                        Some(BadDebt {
                            user: old(user).authority,
                            market: market_index,
                            deficit: (-net - old(user).collateral) as u64,
                            ts: now,
                        })
                    } else {
                        None
                    })
                    &&& ev == (Liquidated {
                        user: old(user).authority,
                        keeper,
                        market_index,
                        close_base: cb as u64,
                        closed_notional: cn as u64,
                        close_pnl: liq_pnl(p, cb as u64, mark) as i64,
                        liq_fee: fee as u64,
                        keeper_rw: (fee / 2) as u64,
                        was_full: cb >= p.base_amount,
                        ts: now,
                    })
                },
                Err(e) => {
                    &&& liq_plan(*old(user), mark, market_index) == Err::<(), LiqError>(e)
                    &&& *final(user) == *old(user)
                },
            }
        }),
{
    let mark = market.mark_price;
    let idx = match crate::neet_clearing_house::find_pos(user, market_index) {
        Some(i) => i,
        None => return Err(LiqError::NoPos),
    };
    proof {
        lemma_first_slot(old(user).positions@, SlotQuery::Open(market_index), 0);
    }
    let pos = user.positions[idx];

    let notional = notional_u64(pos.base_amount, mark);
    let entry = entry_price(&pos);
    let pnl: i64 = match pos.direction {
        Direction::Long => (mark as i64 - entry as i64) * pos.base_amount as i64 / PRICE_PREC as i64,
        Direction::Short => (entry as i64 - mark as i64) * pos.base_amount as i64 / PRICE_PREC as i64,
    };
    let equity = equity(user.collateral, pnl);
    let mm = match notional.checked_mul(MAINT_BPS) {
        Some(v) => v / 10_000,
        None => return Err(LiqError::Overflow),
    };
    if !(equity < mm) {
        return Err(LiqError::NotLiquidatable);
    }

    let lev = if pos.leverage < 1 { 1 } else { pos.leverage };
    let im = notional / lev;
    let room = im.saturating_sub(mm);
    let denom = if room < 1 { 1 } else { room };
    let deficit = mm.saturating_sub(equity);
    assert(deficit * 10_000 <= notional * 250) by (nonlinear_arith)
        requires
            deficit <= mm,
            mm == notional * 250 / 10_000,
            notional >= 0,
    ;
    let frac = deficit * 10_000 / denom;
    let frac_bps = if frac < 10_000 { frac } else { 10_000 };
    assert((pos.base_amount as u128) * (frac_bps as u128) <= u64::MAX * 10_000) by (nonlinear_arith)
        requires
            pos.base_amount <= u64::MAX,
            frac_bps <= 10_000,
    ;
    let cb = ((pos.base_amount as u128) * (frac_bps as u128) / 10_000) as u64;
    let cb = if cb < 1 { 1 } else { cb };
    let close_base = if cb < pos.base_amount { cb } else { pos.base_amount };
    let full_close = close_base >= pos.base_amount;

    let closed_notional = notional_u64(close_base, mark);
    let liq_fee = closed_notional * LIQ_FEE_BPS / 10_000;
    let keeper_rw = liq_fee / 2;

    let close_pnl: i64 = match pos.direction {
        Direction::Long => (mark as i64 - entry as i64) * close_base as i64 / PRICE_PREC as i64,
        Direction::Short => (entry as i64 - mark as i64) * close_base as i64 / PRICE_PREC as i64,
    };

    let rel_margin = pos.open_notional * close_base / pos.base_amount / lev;
    let net = (rel_margin as i64).saturating_add(close_pnl).saturating_sub(liq_fee as i64);
    let mut bad_debt: Option<BadDebt> = None;
    let mut u = *user;
    if net >= 0 {
        u.collateral = u.collateral.saturating_add(net as u64);
    } else {
        let loss = (-net) as u64;
        if loss > u.collateral {
            bad_debt = Some(BadDebt { user: u.authority, market: market_index, deficit: loss - u.collateral, ts: now });
            u.collateral = 0;
        } else {
            u.collateral = u.collateral - loss;
        }
    }
    u.margin_used = u.margin_used.saturating_sub(rel_margin);

    if full_close {
        u.positions[idx] = Position::default();
    } else {
        let mut p = u.positions[idx];
        p.base_amount = p.base_amount.saturating_sub(close_base);
        p.open_notional = p.open_notional.saturating_sub(closed_notional);
        assert((p.quote_amount as u128) * (p.base_amount as u128) <= u128::MAX) by (nonlinear_arith)
            requires
                p.quote_amount <= u64::MAX,
                p.base_amount <= u64::MAX,
        ;
        p.quote_amount = if p.base_amount > 0 {
            ((p.quote_amount as u128) * (p.base_amount as u128) / ((p.base_amount + close_base) as u128)) as u64
        } else {
            0
        };
        u.positions[idx] = p;
    }
    *user = u;

    Ok((bad_debt, Liquidated {
        user: user.authority,
        keeper,
        market_index,
        close_base,
        closed_notional,
        close_pnl,
        liq_fee,
        keeper_rw,
        was_full: full_close,
        ts: now,
    }))
}

/// `price_gap(p, mark) * amount / PRICE_PREC` in `i64`, or `None` where
/// the program would abort.
fn checked_liq_pnl(p: &Position, entry: u64, amount: u64, mark: u64) -> (r: Option<i64>)
    requires
        p.base_amount > 0,
        entry == entry_price_of(*p),
    ensures
        r is Some <==> liq_pnl_fits(*p, amount, mark),
        r matches Some(v) ==> v == liq_pnl(*p, amount, mark),
{
    let gap = match p.direction {
        Direction::Long => (mark as i64).checked_sub(entry as i64),
        Direction::Short => (entry as i64).checked_sub(mark as i64),
    };
    let gap = match gap {
        Some(g) => g,
        None => return None,
    };
    match gap.checked_mul(amount as i64) {
        Some(v) => Some(v / PRICE_PREC as i64),
        None => None,
    }
}

/// Whether `is_liquidatable` runs without aborting on these inputs (the
/// condition its `requires` states), for callers to test before calling.
pub fn is_liquidatable_defined(user: &UserAccount, market: &MarketState, market_index: u8) -> (b: bool)
    ensures
        b == health_defined(*user, market.mark_price, market_index),
{
    let mark = market.mark_price;
    let idx = match crate::neet_clearing_house::find_pos(user, market_index) {
        Some(i) => i,
        None => return true,
    };
    proof {
        lemma_first_slot(user.positions@, SlotQuery::Open(market_index), 0);
    }
    let pos = user.positions[idx];
    let entry = entry_price(&pos);
    if checked_liq_pnl(&pos, entry, pos.base_amount, mark).is_none() {
        return false;
    }
    notional_u64(pos.base_amount, mark).checked_mul(MAINT_BPS).is_some()
}

/// Whether `liquidate` runs without aborting on these inputs (the
/// condition its `requires` states), for callers to test before calling.
pub fn liquidate_is_defined(user: &UserAccount, market: &MarketState, market_index: u8) -> (b: bool)
    ensures
        b == liquidate_defined(*user, market.mark_price, market_index),
{
    let mark = market.mark_price;
    let idx = match crate::neet_clearing_house::find_pos(user, market_index) {
        Some(i) => i,
        None => return true,
    };
    proof {
        lemma_first_slot(user.positions@, SlotQuery::Open(market_index), 0);
    }
    let pos = user.positions[idx];
    let entry = entry_price(&pos);
    let pnl = match checked_liq_pnl(&pos, entry, pos.base_amount, mark) {
        Some(v) => v,
        None => return false,
    };
    let notional = notional_u64(pos.base_amount, mark);
    let equity = equity(user.collateral, pnl);
    let mm = match notional.checked_mul(MAINT_BPS) {
        Some(v) => v / 10_000,
        None => return true,
    };
    if !(equity < mm) {
        return true;
    }
    let lev = if pos.leverage < 1 { 1 } else { pos.leverage };
    let im = notional / lev;
    let room = im.saturating_sub(mm);
    let denom = if room < 1 { 1 } else { room };
    let deficit = mm.saturating_sub(equity);
    assert(deficit * 10_000 <= notional * 250) by (nonlinear_arith)
        requires
            deficit <= mm,
            mm == notional * 250 / 10_000,
            notional >= 0,
    ;
    let frac = deficit * 10_000 / denom;
    let frac_bps = if frac < 10_000 { frac } else { 10_000 };
    assert((pos.base_amount as u128) * (frac_bps as u128) <= u64::MAX * 10_000) by (nonlinear_arith)
        requires
            pos.base_amount <= u64::MAX,
            frac_bps <= 10_000,
    ;
    let cb = ((pos.base_amount as u128) * (frac_bps as u128) / 10_000) as u64;
    let cb = if cb < 1 { 1 } else { cb };
    let close_base = if cb < pos.base_amount { cb } else { pos.base_amount };
    let closed_notional = notional_u64(close_base, mark);
    let liq_fee = match closed_notional.checked_mul(LIQ_FEE_BPS) {
        Some(v) => v / 10_000,
        None => return false,
    };
    let close_pnl = match checked_liq_pnl(&pos, entry, close_base, mark) {
        Some(v) => v,
        None => return false,
    };
    let rel_margin = match pos.open_notional.checked_mul(close_base) {
        Some(v) => v / pos.base_amount / lev,
        None => return false,
    };
    let net = (rel_margin as i64).saturating_add(close_pnl).saturating_sub(liq_fee as i64);
    net != i64::MIN
}

// ── Laws ──────────────────────────────────────────────────────────────────

/// The keeper's action and the view agree: wherever the maintenance
/// margin is computable, a liquidation passes its checks exactly when
/// `is_liquidatable` reports true, and is refused as healthy exactly when
/// there is a position that is not below maintenance.
pub proof fn law_liquidate_agrees_with_view(u: UserAccount, mark: u64, mkt: u8)
    requires
        health_defined(u, mark, mkt),
    ensures
        liq_plan(u, mark, mkt) is Ok <==> (first_slot(u.positions@, SlotQuery::Open(mkt), 0) is Some
            && below_maintenance(u, mark, mkt)),
        liq_plan(u, mark, mkt) == Err::<(), LiqError>(LiqError::NotLiquidatable) <==> (first_slot(
            u.positions@,
            SlotQuery::Open(mkt),
            0,
        ) is Some && !below_maintenance(u, mark, mkt)),
        liq_plan(u, mark, mkt) == Err::<(), LiqError>(LiqError::NoPos) <==> first_slot(u.positions@, SlotQuery::Open(mkt), 0) is None,
{
}

/// A liquidation closes at least one unit and at most the whole position;
/// it empties the slot exactly when it closes everything.
pub proof fn law_liquidation_closes_within_position(u: UserAccount, mark: u64, mkt: u8)
    requires
        liq_plan(u, mark, mkt) is Ok,
    ensures
        ({
            let p = liq_position(u, mkt);
            let cb = liq_close_base_of(u, mark, mkt);
            let cn = notional_of(cb, mark as int);
            &&& 1 <= cb <= p.base_amount
            &&& (cb >= p.base_amount ==> closed_position(p, cb as u64, cn) == empty_position())
            &&& (cb < p.base_amount ==> closed_position(p, cb as u64, cn).base_amount == p.base_amount - cb)
        }),
{
    lemma_first_slot(u.positions@, SlotQuery::Open(mkt), 0);
}

/// A liquidation's close fraction grows with the shortfall: a position
/// further below maintenance (lower equity, same notional and leverage) is
/// closed by at least as large a share.
pub proof fn law_close_fraction_monotone(notional: int, mm: int, e1: int, e2: int, leverage: u64)
    requires
        notional >= 0,
        e1 <= e2,
    ensures
        close_fraction_bps(notional, mm, e2, leverage) <= close_fraction_bps(notional, mm, e1, leverage),
        0 <= close_fraction_bps(notional, mm, e1, leverage) <= 10_000,
{
    let im = notional / (if leverage < 1 { 1int } else { leverage as int });
    let room = if im - mm < 1 { 1int } else { im - mm };
    let d1 = if mm - e1 < 0 { 0int } else { mm - e1 };
    let d2 = if mm - e2 < 0 { 0int } else { mm - e2 };
    assert(d2 * 10_000 <= d1 * 10_000);
    vstd::arithmetic::div_mod::lemma_div_is_ordered(d2 * 10_000, d1 * 10_000, room);
    vstd::arithmetic::div_mod::lemma_div_pos_is_pos(d1 * 10_000, room);
}

/// A liquidation keeps every free slot empty: a fully liquidated slot is
/// reset to the empty position, a partly liquidated one keeps a nonzero
/// base.
pub proof fn law_liquidation_keeps_free_slots_empty(u: UserAccount, mark: u64, mkt: u8)
    requires
        free_slots_empty(u.positions@),
        liq_plan(u, mark, mkt) is Ok,
    ensures
        ({
            let idx = first_slot(u.positions@, SlotQuery::Open(mkt), 0)->Some_0;
            let p = liq_position(u, mkt);
            let cb = liq_close_base_of(u, mark, mkt);
            free_slots_empty(u.positions@.update(idx, closed_position(p, cb as u64, notional_of(cb, mark as int))))
        }),
{
    lemma_first_slot(u.positions@, SlotQuery::Open(mkt), 0);
}

/// The terms of a liquidation, in plain arithmetic: the position is below
/// maintenance (equity, the collateral plus the PnL of the whole position
/// floored at zero, under 2.5% of its notional); the PnL of `amount` units
/// is the price gap from entry times `amount`, over `PRICE_PREC`, rounded
/// toward zero; the fee is 1% of the closed notional and the keeper gets
/// half of it.
pub proof fn law_liquidation_terms(u: UserAccount, mark: u64, mkt: u8, amount: u64)
    requires
        liq_plan(u, mark, mkt) is Ok,
        u.collateral <= i64::MAX,
    ensures
        ({
            let p = liq_position(u, mkt);
            let entry = (((p.quote_amount * 1_000_000int) / (p.base_amount as int)) as u64);
            let gap = match p.direction {
                Direction::Long => ((mark as i64) as int) - ((entry as i64) as int),
                Direction::Short => ((entry as i64) as int) - ((mark as i64) as int),
            };
            let notional = (((p.base_amount * mark) / 1_000_000int) as u64) as int;
            let mm = maint_margin(notional);
            let whole_pnl = liq_pnl(p, p.base_amount, mark);
            let eq = u.collateral + whole_pnl;
            let cn = notional_of(liq_close_base_of(u, mark, mkt), mark as int);
            let fee = liq_fee_of(cn);
            &&& liq_pnl(p, amount, mark) == trunc_div(gap * ((amount as i64) as int), 1_000_000)
            &&& mm * 10_000 <= notional * 250 < (mm + 1) * 10_000
            &&& (eq <= 0 ==> 0 < mm)
            &&& (0 < eq <= i64::MAX ==> eq < mm)
            &&& fee * 10_000 <= cn * 100 < (fee + 1) * 10_000
            &&& 2 * (fee / 2) <= fee <= 2 * (fee / 2) + 1
        }),
{
    let p = liq_position(u, mkt);
    let notional = (((p.base_amount * mark) / 1_000_000int) as u64) as int;
    vstd::arithmetic::div_mod::lemma_fundamental_div_mod(notional * 250, 10_000);
    vstd::arithmetic::div_mod::lemma_mod_pos_bound(notional * 250, 10_000);
    let cn = notional_of(liq_close_base_of(u, mark, mkt), mark as int);
    vstd::arithmetic::div_mod::lemma_fundamental_div_mod(cn * 100, 10_000);
    vstd::arithmetic::div_mod::lemma_mod_pos_bound(cn * 100, 10_000);
}

/// Settling a liquidation moves collateral by exactly the net, clamped to
/// `0 ..= u64::MAX`.
pub proof fn law_liquidation_settles_net(c: u64, net: int)
    ensures
        collateral_after_liq(c as int, net) == (if c + net < 0 { 0 } else if c + net > u64::MAX { u64::MAX as int } else { c + net }),
{
}

} // verus!
