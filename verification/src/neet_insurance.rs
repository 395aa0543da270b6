//! The insurance fund: deposits, bad-debt coverage, and the share of fees
//! it should receive given how well it covers open interest.

use vstd::prelude::*;
use crate::Pubkey;

verus! {

/// Fee share (percent) the fund receives normally.
pub const NORMAL_SHARE: u64 = 40;
/// Fee share (percent) the fund receives when its balance is critical.
pub const HIGH_SHARE: u64 = 80;
/// Balance-to-open-interest ratio, in basis points, below which the fund
/// is critical (1%).
pub const CRITICAL_BPS: u64 = 100;

#[derive(Clone, Copy, Debug, PartialEq, Eq)]
pub struct InsState {
    pub admin: Pubkey,
    pub total_balance: u64,
    pub total_covered: u64,
    pub bump: u8,
}

impl InsState {
    pub const LEN: usize = 32 + 8 + 8 + 1;
}

#[derive(Clone, Copy, Debug, PartialEq, Eq)]
pub struct InsDeposit {
    pub amount: u64,
    pub total: u64,
    pub ts: i64,
}

#[derive(Clone, Copy, Debug, PartialEq, Eq)]
pub struct DebtCovered {
    pub user: Pubkey,
    pub market: u8,
    pub amount: u64,
    pub remaining: u64,
    pub ts: i64,
}

#[derive(Clone, Copy, Debug, PartialEq, Eq, Structural)]
pub enum InsError {
    Insufficient,
    Overflow,
}


/// Sets up an empty fund administered by `admin`.
pub fn initialize(state: &mut InsState, admin: Pubkey, bump: u8)
    ensures
        *final(state) == (InsState { admin, total_balance: 0, total_covered: 0, bump }),
{
    state.admin = admin;
    state.total_balance = 0;
    state.total_covered = 0;
    state.bump = bump;
}

/// Records a deposit of `amount` into the fund (the token transfer into
/// the vault is made by the caller).
pub fn deposit(state: &mut InsState, amount: u64, now: i64) -> (r: Result<InsDeposit, InsError>)
    ensures
        match r {
            Ok(ev) => {
                &&& old(state).total_balance + amount <= u64::MAX
                &&& *final(state) == (InsState { total_balance: (old(state).total_balance + amount) as u64, ..*old(state) })
                &&& ev == (InsDeposit { amount, total: final(state).total_balance, ts: now })
            },
            Err(e) => {
                &&& e == InsError::Overflow
                &&& old(state).total_balance + amount > u64::MAX
                &&& *final(state) == *old(state)
            },
        },
{
    let total = match state.total_balance.checked_add(amount) {
        Some(v) => v,
        None => return Err(InsError::Overflow),
    };
    state.total_balance = total;
    Ok(InsDeposit { amount, total: state.total_balance, ts: now })
}

/// Pays `amount` out of the fund to cover a user's bad debt in `market`
/// (the token transfer out of the vault is made by the caller); the fund
/// must hold at least `amount`.
pub fn cover_bad_debt(state: &mut InsState, amount: u64, user: Pubkey, market: u8, now: i64) -> (r: Result<DebtCovered, InsError>)
    ensures
        match r {
            Ok(ev) => {
                &&& old(state).total_balance >= amount
                &&& old(state).total_covered + amount <= u64::MAX
                &&& *final(state) == (InsState {
                    total_balance: (old(state).total_balance - amount) as u64,
                    total_covered: (old(state).total_covered + amount) as u64,
                    ..*old(state)
                })
                &&& ev == (DebtCovered { user, market, amount, remaining: final(state).total_balance, ts: now })
                &&& final(state).total_balance + final(state).total_covered == old(state).total_balance + old(state).total_covered
            },
            Err(e) => {
                &&& e == (if old(state).total_balance < amount { InsError::Insufficient } else { InsError::Overflow })
                &&& (e == InsError::Overflow ==> old(state).total_covered + amount > u64::MAX)
                &&& *final(state) == *old(state)
            },
        },
{
    if state.total_balance < amount {
        return Err(InsError::Insufficient);
    }
    let balance = match state.total_balance.checked_sub(amount) {
        Some(v) => v,
        None => return Err(InsError::Overflow),
    };
    let covered = match state.total_covered.checked_add(amount) {
        Some(v) => v,
        None => return Err(InsError::Overflow),
    };
    state.total_balance = balance;
    state.total_covered = covered;
    Ok(DebtCovered { user, market, amount, remaining: state.total_balance, ts: now })
}

/// The fee share (percent) for a fund balance against open interest: the
/// high share when the balance is under 1% of a nonzero open interest (the
/// scaled balance saturating at `u64::MAX`), else the normal share.
pub open spec fn fee_share_for(balance: u64, total_oi: u64) -> u64 {
    if total_oi == 0 {
        NORMAL_SHARE
    } else if crate::arith::sat_mul_u64(balance as int, 10_000) / (total_oi as int) < CRITICAL_BPS {
        HIGH_SHARE
    } else {
        NORMAL_SHARE
    }
}

/// The share of fees (percent) the fund should receive (a read-only view).
pub fn fee_share_bps(state: &InsState, total_oi: u64) -> (r: u64)
    ensures
        r == fee_share_for(state.total_balance, total_oi),
{
    if total_oi == 0 {
        return NORMAL_SHARE;
    }
    let bal = state.total_balance;
    let ratio = bal.saturating_mul(10_000) / total_oi;
    if ratio < CRITICAL_BPS { HIGH_SHARE } else { NORMAL_SHARE }
}

// ── Laws ──────────────────────────────────────────────────────────────────

/// The fee share is always one of the two shares, and a better-funded
/// pool (same open interest) never gets the higher share when a
/// worse-funded one gets the normal share.
pub proof fn law_fee_share_monotone(b1: u64, b2: u64, oi: u64)
    requires
        b1 <= b2,
    ensures
        fee_share_for(b1, oi) == NORMAL_SHARE || fee_share_for(b1, oi) == HIGH_SHARE,
        fee_share_for(b1, oi) == NORMAL_SHARE ==> fee_share_for(b2, oi) == NORMAL_SHARE,
{
    if oi != 0 {
        assert(crate::arith::sat_mul_u64(b1 as int, 10_000) <= crate::arith::sat_mul_u64(b2 as int, 10_000)) by (nonlinear_arith)
            requires
                b1 <= b2,
        ;
        vstd::arithmetic::div_mod::lemma_div_is_ordered(
            crate::arith::sat_mul_u64(b1 as int, 10_000),
            crate::arith::sat_mul_u64(b2 as int, 10_000),
            oi as int,
        );
    }
}

/// The fund gets the high share exactly when open interest is nonzero and
/// its balance is under 1% of it (with the balance scaled by 10 000 not
/// overflowing `u64`), and the normal share otherwise.
pub proof fn law_fee_share_threshold(balance: u64, oi: u64)
    requires
        balance * 10_000 <= u64::MAX,
    ensures
        fee_share_for(balance, oi) == HIGH_SHARE <==> (oi > 0 && balance * 10_000 < oi * 100),
        fee_share_for(balance, oi) == NORMAL_SHARE <==> !(oi > 0 && balance * 10_000 < oi * 100),
{
    if oi > 0 {
        let x = balance * 10_000;
        vstd::arithmetic::div_mod::lemma_fundamental_div_mod(x, oi as int);
        vstd::arithmetic::div_mod::lemma_mod_pos_bound(x, oi as int);
        let q = x / (oi as int);
        if q < 100 {
            assert(x < oi * 100) by (nonlinear_arith)
                requires
                    x == oi * q + x % (oi as int),
                    x % (oi as int) < oi,
                    q <= 99,
            ;
        } else {
            assert(x >= oi * 100) by (nonlinear_arith)
                requires
                    x == oi * q + x % (oi as int),
                    x % (oi as int) >= 0,
                    q >= 100,
                    oi > 0,
            ;
        }
    }
}

} // verus!
