//! The treasury: splits collected fees between the insurance fund and the
//! treasury, and runs a weekly buyback out of the treasury's balance.

use vstd::prelude::*;
use crate::Pubkey;

verus! {

/// Percent of fees routed to the insurance fund.
pub const INS_SHARE: u64 = 40;
/// Percent of fees kept by the treasury.
pub const TREAS_SHARE: u64 = 60;
/// Seconds between buybacks (seven days).
pub const BUYBACK_INTERVAL: i64 = 604800;
/// Percent of the treasury balance a buyback spends, initially.
pub const DEFAULT_BB_PCT: u64 = 50;

#[derive(Clone, Copy, Debug, PartialEq, Eq)]
pub struct TreasuryState {
    pub admin: Pubkey,
    pub total_fees: u64,
    pub total_burned: u64,
    pub last_buyback_ts: i64,
    pub buyback_pct: u64,
    pub bump: u8,
}

impl TreasuryState {
    pub const LEN: usize = 32 + 8 + 8 + 8 + 8 + 1;
}

#[derive(Clone, Copy, Debug, PartialEq, Eq)]
pub struct FeesDistributed {
    pub total: u64,
    pub insurance: u64,
    pub treasury: u64,
    pub ts: i64,
}

#[derive(Clone, Copy, Debug, PartialEq, Eq)]
pub struct Buyback {
    pub usdc_spent: u64,
    pub neet_burned: u64,
    pub ts: i64,
}

#[derive(Clone, Copy, Debug, PartialEq, Eq, Structural)]
pub enum TrError {
    TooSoon,
    NothingToBurn,
    BadPct,
    Overflow,
}


/// Sets up the treasury administered by `admin`, with no fees, nothing
/// burned, no buyback yet and the default buyback percentage.
pub fn initialize(state: &mut TreasuryState, admin: Pubkey, bump: u8)
    ensures
        *final(state) == (TreasuryState {
            admin,
            total_fees: 0,
            total_burned: 0,
            last_buyback_ts: 0,
            buyback_pct: DEFAULT_BB_PCT,
            bump,
        }),
{
    state.admin = admin;
    state.total_fees = 0;
    state.total_burned = 0;
    state.last_buyback_ts = 0;
    state.buyback_pct = DEFAULT_BB_PCT;
    state.bump = bump;
}

/// The insurance fund's part of `amount` in fees (40%, rounded down).
pub open spec fn insurance_part(amount: int) -> int {
    amount * (INS_SHARE as int) / 100
}

/// Splits `amount` of fees: 40% (rounded down) to the insurance vault and
/// the rest to the treasury vault (the two transfers are made by the
/// caller, with the amounts in the returned event).
pub fn distribute_fees(state: &mut TreasuryState, amount: u64, now: i64) -> (r: Result<FeesDistributed, TrError>)
    requires
        amount * INS_SHARE <= u64::MAX,
    ensures
        match r {
            Ok(ev) => {
                &&& old(state).total_fees + amount <= u64::MAX
                &&& *final(state) == (TreasuryState { total_fees: (old(state).total_fees + amount) as u64, ..*old(state) })
                &&& ev == (FeesDistributed {
                    total: amount,
                    insurance: insurance_part(amount as int) as u64,
                    treasury: (amount - insurance_part(amount as int)) as u64,
                    ts: now,
                })
            },
            Err(e) => {
                &&& e == TrError::Overflow
                &&& old(state).total_fees + amount > u64::MAX
                &&& *final(state) == *old(state)
            },
        },
{
    let ins_amt = amount * INS_SHARE / 100;
    let tr_amt = amount - ins_amt;
    let total = match state.total_fees.checked_add(amount) {
        Some(v) => v,
        None => return Err(TrError::Overflow),
    };
    state.total_fees = total;
    Ok(FeesDistributed { total: amount, insurance: ins_amt, treasury: tr_amt, ts: now })
}

/// What a buyback spends out of `balance` at `pct` percent.
pub open spec fn buyback_amount(balance: int, pct: int) -> int {
    balance * pct / 100
}

/// The outcome of a buyback: at least `BUYBACK_INTERVAL` since the last
/// one, and a nonzero amount to spend.
pub open spec fn buyback_plan(s: TreasuryState, balance: u64, now: i64) -> Result<int, TrError> {
    let spend = buyback_amount(balance as int, s.buyback_pct as int);
    if now - s.last_buyback_ts < BUYBACK_INTERVAL {
        Err(TrError::TooSoon)
    } else if spend == 0 {
        Err(TrError::NothingToBurn)
    } else if s.total_burned + spend > u64::MAX {
        Err(TrError::Overflow)
    } else {
        Ok(spend)
    }
}

/// Records a weekly buyback of `buyback_pct` percent of the treasury
/// vault's `treasury_balance`.
pub fn execute_buyback(state: &mut TreasuryState, treasury_balance: u64, now: i64) -> (r: Result<Buyback, TrError>)
    requires
        i64::MIN <= now - old(state).last_buyback_ts <= i64::MAX,
        now - old(state).last_buyback_ts >= BUYBACK_INTERVAL ==> treasury_balance * old(state).buyback_pct <= u64::MAX,
    ensures
        match r {
            Ok(ev) => {
                &&& buyback_plan(*old(state), treasury_balance, now) is Ok
                &&& *final(state) == (TreasuryState {
                    last_buyback_ts: now,
                    total_burned: (old(state).total_burned + buyback_plan(*old(state), treasury_balance, now)->Ok_0) as u64,
                    ..*old(state)
                })
                &&& ev == (Buyback {
                    usdc_spent: buyback_plan(*old(state), treasury_balance, now)->Ok_0 as u64,
                    neet_burned: 0,
                    ts: now,
                })
            },
            Err(e) => {
                &&& buyback_plan(*old(state), treasury_balance, now) == Err::<int, TrError>(e)
                &&& *final(state) == *old(state)
            },
        },
{
    if now - state.last_buyback_ts < BUYBACK_INTERVAL {
        return Err(TrError::TooSoon);
    }
    let buyback = treasury_balance * state.buyback_pct / 100;
    if buyback == 0 {
        return Err(TrError::NothingToBurn);
    }
    let burned = match state.total_burned.checked_add(buyback) {
        Some(v) => v,
        None => return Err(TrError::Overflow),
    };
    state.last_buyback_ts = now;
    state.total_burned = burned;
    Ok(Buyback { usdc_spent: buyback, neet_burned: 0, ts: now })
}

/// Sets the buyback percentage; more than 100 is refused.
pub fn set_buyback_pct(state: &mut TreasuryState, pct: u64) -> (r: Result<(), TrError>)
    ensures
        r is Ok <==> pct <= 100,
        r is Ok ==> *final(state) == (TreasuryState { buyback_pct: pct, ..*old(state) }),
        r is Err ==> r == Err::<(), TrError>(TrError::BadPct) && *final(state) == *old(state),
{
    if pct > 100 {
        return Err(TrError::BadPct);
    }
    state.buyback_pct = pct;
    Ok(())
}

// ── Laws ──────────────────────────────────────────────────────────────────

/// The fee split loses nothing: the insurance and treasury parts add up to
/// the amount, the insurance part is 40% of it rounded down and the
/// treasury part the rest (at least 60%).
pub proof fn law_fee_split_conserves(amount: u64)
    ensures
        insurance_part(amount as int) + (amount - insurance_part(amount as int)) == amount,
        insurance_part(amount as int) * 100 <= amount * INS_SHARE < (insurance_part(amount as int) + 1) * 100,
        (amount - insurance_part(amount as int)) * 100 >= amount * TREAS_SHARE,
{
    vstd::arithmetic::div_mod::lemma_fundamental_div_mod(amount * 40, 100);
    vstd::arithmetic::div_mod::lemma_mod_pos_bound(amount * 40, 100);
}

/// With a percentage of at most 100 (which `initialize` and
/// `set_buyback_pct` guarantee), a buyback never spends more than the
/// treasury holds.
pub proof fn law_buyback_within_balance(s: TreasuryState, balance: u64, now: i64)
    requires
        s.buyback_pct <= 100,
        buyback_plan(s, balance, now) is Ok,
    ensures
        buyback_plan(s, balance, now)->Ok_0 <= balance,
{
    law_buyback_spends_share(s, balance, now);
    assert(balance * s.buyback_pct <= balance * 100) by (nonlinear_arith)
        requires
            s.buyback_pct <= 100,
    ;
    vstd::arithmetic::div_mod::lemma_div_is_ordered(balance * s.buyback_pct, balance * 100, 100);
    vstd::arithmetic::div_mod::lemma_div_multiples_vanish(balance as int, 100);
    assert(balance * 100 == 100 * balance);
}

/// After a buyback, another one at the same time is refused: buybacks are
/// at least `BUYBACK_INTERVAL` apart.
pub proof fn law_buyback_once_per_interval(s: TreasuryState, balance: u64, now: i64, balance2: u64)
    requires
        buyback_plan(s, balance, now) is Ok,
    ensures
        buyback_plan(
            TreasuryState {
                last_buyback_ts: now,
                total_burned: (s.total_burned + buyback_plan(s, balance, now)->Ok_0) as u64,
                ..s
            },
            balance2,
            now,
        ) == Err::<int, TrError>(TrError::TooSoon),
{
}

/// A buyback spends `buyback_pct` percent of the treasury balance, rounded
/// down, and is refused when that rounds to zero or the week has not
/// passed.
pub proof fn law_buyback_spends_share(s: TreasuryState, balance: u64, now: i64)
    ensures
        buyback_plan(s, balance, now) matches Ok(spend) ==> {
            &&& spend * 100 <= balance * s.buyback_pct < (spend + 1) * 100
            &&& spend > 0
            &&& now - s.last_buyback_ts >= BUYBACK_INTERVAL
        },
        now - s.last_buyback_ts < BUYBACK_INTERVAL ==> buyback_plan(s, balance, now) == Err::<int, TrError>(TrError::TooSoon),
        now - s.last_buyback_ts >= BUYBACK_INTERVAL && balance * s.buyback_pct < 100
            ==> buyback_plan(s, balance, now) == Err::<int, TrError>(TrError::NothingToBurn),
{
    let x = balance * s.buyback_pct;
    vstd::arithmetic::div_mod::lemma_fundamental_div_mod(x, 100);
    vstd::arithmetic::div_mod::lemma_mod_pos_bound(x, 100);
}

} // verus!
