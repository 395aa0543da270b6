//! The clearing house: user collateral, leveraged positions, fees, funding
//! settlement and realised PnL.

use vstd::prelude::*;
use crate::Pubkey;
use crate::arith::trunc_div;

verus! {

pub const MAX_LEVERAGE: u64 = 10;
pub const PRICE_PRECISION: u64 = 1_000_000;
pub const FUNDING_PRECISION: i64 = 1_000_000_000;
pub const MAX_POSITIONS: usize = 8;
/// Smallest notional a position may be opened with ($10).
pub const MIN_NOTIONAL_USDC: u64 = 10_000_000;
/// Largest notional a position may be opened with ($500k).
pub const MAX_NOTIONAL_USDC: u64 = 500_000_000_000;
/// Taker fee in basis points (0.07%).
pub const TAKER_FEE_BPS: u64 = 7;

// ── State ─────────────────────────────────────────────────────────────────

/// The protocol-wide state account.
#[derive(Clone, Copy, Debug, PartialEq, Eq)]
pub struct ProtocolState {
    pub admin: Pubkey,
    pub usdc_mint: Pubkey,
    pub paused: bool,
    pub total_fees: u64,
    pub bump: u8,
}

impl ProtocolState {
    pub const LEN: usize = 32 + 32 + 1 + 8 + 1;
}

#[derive(Clone, Copy, Debug, PartialEq, Eq, Structural)]
pub enum Direction {
    Long,
    Short,
}

impl Default for Direction {
    fn default() -> (d: Direction)
        ensures
            d == Direction::Long,
    {
        Direction::Long
    }
}

/// One position slot of a user account; a slot with a zero base amount is
/// free.
#[derive(Clone, Copy, Debug, PartialEq, Eq, Structural)]
pub struct Position {
    pub market_index: u8,
    pub direction: Direction,
    pub base_amount: u64,
    pub quote_amount: u64,
    pub open_notional: u64,
    pub leverage: u64,
    pub last_funding: i64,
}

impl Position {
    pub const LEN: usize = 1 + 1 + 8 + 8 + 8 + 8 + 8;
}

/// The empty position: every number zero, direction long.
pub open spec fn empty_position() -> Position {
    Position {
        market_index: 0,
        direction: Direction::Long,
        base_amount: 0,
        quote_amount: 0,
        open_notional: 0,
        leverage: 0,
        last_funding: 0,
    }
}

impl Default for Position {
    fn default() -> (p: Position)
        ensures
            p == empty_position(),
    {
        Position {
            market_index: 0,
            direction: Direction::Long,
            base_amount: 0,
            quote_amount: 0,
            open_notional: 0,
            leverage: 0,
            last_funding: 0,
        }
    }
}

/// A trader's account: collateral, margin locked by open positions,
/// realised PnL and a fixed number of position slots.
#[derive(Clone, Copy, Debug, PartialEq, Eq)]
pub struct UserAccount {
    pub authority: Pubkey,
    pub collateral: u64,
    pub margin_used: u64,
    pub realised_pnl: i64,
    pub positions: [Position; MAX_POSITIONS],
    pub bump: u8,
}

impl UserAccount {
    pub const LEN: usize = 32 + 8 + 8 + 8 + Position::LEN * MAX_POSITIONS + 1;
}

/// The market account as the clearing house, funding and liquidation
/// programs read it.
#[derive(Clone, Copy, Debug, PartialEq, Eq)]
pub struct MarketState {
    pub market_index: u8,
    pub mark_price: u64,
    pub index_price: u64,
    pub mark_price_twap: u64,
    pub cumulative_funding_rate: i64,
    pub last_funding_ts: i64,
    pub twap_last_ts: i64,
    pub base_reserve: u128,
    pub quote_reserve: u128,
    pub k: u128,
    pub sqrt_k: u128,
    pub total_longs: u64,
    pub total_shorts: u64,
    pub bump: u8,
}

impl MarketState {
    pub const LEN: usize = 1 + 8 + 8 + 8 + 8 + 8 + 8 + 16 + 16 + 16 + 16 + 8 + 8 + 1;
}

// ── Events and errors ─────────────────────────────────────────────────────

#[derive(Clone, Copy, Debug, PartialEq, Eq)]
pub struct ProtocolInit {
    pub admin: Pubkey,
    pub ts: i64,
}

#[derive(Clone, Copy, Debug, PartialEq, Eq)]
pub struct TradingPaused {
    pub paused: bool,
    pub ts: i64,
}

#[derive(Clone, Copy, Debug, PartialEq, Eq)]
pub struct Deposit {
    pub user: Pubkey,
    pub amount: u64,
    pub ts: i64,
}

#[derive(Clone, Copy, Debug, PartialEq, Eq)]
pub struct Withdraw {
    pub user: Pubkey,
    pub amount: u64,
    pub ts: i64,
}

#[derive(Clone, Copy, Debug, PartialEq, Eq)]
pub struct BadDebt {
    pub user: Pubkey,
    pub market: u8,
    pub ts: i64,
}

#[derive(Clone, Copy, Debug, PartialEq, Eq)]
pub struct PositionOpened {
    pub user: Pubkey,
    pub market: u8,
    pub direction: Direction,
    pub base_amount: u64,
    pub notional: u64,
    pub entry_price: u64,
    pub leverage: u64,
    pub fee: u64,
    pub ts: i64,
}

#[derive(Clone, Copy, Debug, PartialEq, Eq)]
pub struct PositionClosed {
    pub user: Pubkey,
    pub market: u8,
    pub close_amount: u64,
    pub exit_price: u64,
    pub pnl: i64,
    pub fee: u64,
    pub ts: i64,
}

#[derive(Clone, Copy, Debug, PartialEq, Eq, Structural)]
pub enum NeetError {
    Paused,
    InvalidAmount,
    BadLeverage,
    InsufficientCollateral,
    BelowMin,
    AboveMax,
    NoPosition,
    MaxPositions,
    Overflow,
}


// ── Position slots ────────────────────────────────────────────────────────

/// What a slot search looks for.
pub enum SlotQuery {
    /// An open position in the market.
    Open(u8),
    /// An open position in the market on the given side.
    Side(u8, Direction),
    /// A free slot.
    Free,
}

pub open spec fn slot_matches(p: Position, q: SlotQuery) -> bool {
    match q {
        SlotQuery::Open(mkt) => p.market_index == mkt && p.base_amount > 0,
        SlotQuery::Side(mkt, dir) => p.market_index == mkt && p.base_amount > 0 && p.direction == dir,
        SlotQuery::Free => p.base_amount == 0,
    }
}

/// The first index at or after `from` whose slot matches the query.
pub open spec fn first_slot(ps: Seq<Position>, q: SlotQuery, from: int) -> Option<int>
    decreases ps.len() - from,
{
    if from < 0 || from >= ps.len() {
        None
    } else if slot_matches(ps[from], q) {
        Some(from)
    } else {
        first_slot(ps, q, from + 1)
    }
}

/// `first_slot` finds the first match: no slot before it matches, and
/// when it finds nothing, no slot from `from` on matches.
pub proof fn lemma_first_slot(ps: Seq<Position>, q: SlotQuery, from: int)
    requires
        0 <= from,
    ensures
        match first_slot(ps, q, from) {
            Some(i) => from <= i < ps.len() && slot_matches(ps[i], q)
                && forall|j: int| from <= j < i ==> !slot_matches(#[trigger] ps[j], q),
            None => forall|j: int| from <= j < ps.len() ==> !slot_matches(#[trigger] ps[j], q),
        },
    decreases ps.len() - from,
{
    if from < ps.len() && !slot_matches(ps[from], q) {
        lemma_first_slot(ps, q, from + 1);
    }
}

/// The index of the user's first open position in `mkt`.
pub fn find_pos(u: &UserAccount, mkt: u8) -> (r: Option<usize>)
    ensures
        match r {
            Some(i) => first_slot(u.positions@, SlotQuery::Open(mkt), 0) == Some(i as int),
            None => first_slot(u.positions@, SlotQuery::Open(mkt), 0) is None,
        },
{
    find_slot(&u.positions, SlotQuery::Open(mkt))
}

fn find_slot(ps: &[Position; MAX_POSITIONS], q: SlotQuery) -> (r: Option<usize>)
    ensures
        match r {
            Some(i) => first_slot(ps@, q, 0) == Some(i as int),
            None => first_slot(ps@, q, 0) is None,
        },
{
    let mut i: usize = 0;
    while i < MAX_POSITIONS
        invariant
            0 <= i <= MAX_POSITIONS,
            ps@.len() == MAX_POSITIONS,
            first_slot(ps@, q, 0) == first_slot(ps@, q, i as int),
        decreases MAX_POSITIONS - i,
    {
        let p = ps[i];
        let hit = match q {
            SlotQuery::Open(mkt) => p.market_index == mkt && p.base_amount > 0,
            SlotQuery::Side(mkt, dir) => p.market_index == mkt && p.base_amount > 0 && p.direction == dir,
            SlotQuery::Free => p.base_amount == 0,
        };
        if hit {
            return Some(i);
        }
        i = i + 1;
    }
    None
}

/// The slot a new position in `mkt` on side `dir` goes to: the open
/// position on that side if there is one, else the first free slot.
pub open spec fn slot_index(ps: Seq<Position>, mkt: u8, dir: Direction) -> Option<int> {
    match first_slot(ps, SlotQuery::Side(mkt, dir), 0) {
        Some(i) => Some(i),
        None => first_slot(ps, SlotQuery::Free, 0),
    }
}

/// The slot for a position in `mkt` on side `dir`: the existing one on
/// that side, else the first free slot, else `MaxPositions`.
pub fn slot_for(u: &UserAccount, mkt: u8, dir: Direction) -> (r: Result<usize, NeetError>)
    ensures
        match r {
            Ok(i) => slot_index(u.positions@, mkt, dir) == Some(i as int),
            Err(e) => e == NeetError::MaxPositions && slot_index(u.positions@, mkt, dir) is None,
        },
{
    if let Some(i) = find_slot(&u.positions, SlotQuery::Side(mkt, dir)) {
        return Ok(i);
    }
    match find_slot(&u.positions, SlotQuery::Free) {
        Some(i) => Ok(i),
        None => Err(NeetError::MaxPositions),
    }
}

/// Collateral not locked as margin.
pub open spec fn free_of(u: UserAccount) -> int {
    if u.collateral >= u.margin_used { u.collateral - u.margin_used } else { 0 }
}

/// Collateral not locked as margin (zero when margin exceeds collateral).
pub fn free_collateral(u: &UserAccount) -> (r: u64)
    ensures
        r == free_of(*u),
{
    u.collateral.saturating_sub(u.margin_used)
}

// ── Funding ───────────────────────────────────────────────────────────────

/// What a position owes (positive) or is owed (negative) for the funding
/// accrued since it last settled, or `None` when the arithmetic overflows:
/// `base * (rate - last_funding) / FUNDING_PRECISION`, longs paying and
/// shorts receiving a positive rate.
pub open spec fn funding_net(p: Position, rate: i64) -> Option<int> {
    let delta = rate - p.last_funding;
    let prod = ((p.base_amount as i64) as int) * delta;
    if delta < i64::MIN || delta > i64::MAX || prod < i64::MIN || prod > i64::MAX {
        None
    } else {
        let pay = trunc_div(prod, FUNDING_PRECISION as int);
        Some(
            match p.direction {
                Direction::Long => pay,
                Direction::Short => -pay,
            },
        )
    }
}

/// Collateral after paying (`net > 0`) or receiving (`net <= 0`) funding,
/// clamped to the range of `u64`.
pub open spec fn settle_collateral(c: int, net: int) -> int {
    if net > 0 {
        if c - net < 0 { 0 } else { c - net }
    } else {
        if c - net > u64::MAX { u64::MAX as int } else { c - net }
    }
}

/// Whether funding applies to a slot: an open position in the market.
pub open spec fn funding_applies(p: Position, mkt: u8) -> bool {
    p.market_index == mkt && p.base_amount != 0
}

/// The slot after settling funding at `rate`.
pub open spec fn funded_position(p: Position, mkt: u8, rate: i64) -> Position {
    if funding_applies(p, mkt) { Position { last_funding: rate, ..p } } else { p }
}

/// All slots after settling funding at `rate`.
pub open spec fn funded_positions(ps: Seq<Position>, mkt: u8, rate: i64) -> Seq<Position> {
    Seq::new(ps.len(), |i: int| funded_position(ps[i], mkt, rate))
}

/// Whether every slot that funding applies to can be settled without
/// overflow.
pub open spec fn funding_ok(ps: Seq<Position>, mkt: u8, rate: i64) -> bool {
    forall|i: int| 0 <= i < ps.len() && funding_applies(#[trigger] ps[i], mkt) ==> funding_net(ps[i], rate) is Some
}

/// Collateral after settling the first `n` slots in order.
pub open spec fn funded_collateral(c: int, ps: Seq<Position>, mkt: u8, rate: i64, n: int) -> int
    decreases n,
{
    if n <= 0 {
        c
    } else {
        let prev = funded_collateral(c, ps, mkt, rate, n - 1);
        let p = ps[n - 1];
        if funding_applies(p, mkt) && funding_net(p, rate) is Some {
            settle_collateral(prev, funding_net(p, rate)->Some_0)
        } else {
            prev
        }
    }
}

proof fn lemma_funded_collateral_in_range(c: int, ps: Seq<Position>, mkt: u8, rate: i64, n: int)
    requires
        0 <= c <= u64::MAX,
    ensures
        0 <= funded_collateral(c, ps, mkt, rate, n) <= u64::MAX,
    decreases n,
{
    if n > 0 {
        lemma_funded_collateral_in_range(c, ps, mkt, rate, n - 1);
    }
}

/// Settles accrued funding on every open position of the user in market
/// `mkt` at cumulative rate `rate`: longs pay and shorts receive a positive
/// rate (the reverse for a negative one), collateral saturating at zero and
/// at `u64::MAX`, and each settled position remembers `rate`.
pub fn apply_funding(u: &mut UserAccount, mkt: u8, rate: i64) -> (r: Result<(), NeetError>)
    ensures
        r is Ok <==> funding_ok(old(u).positions@, mkt, rate),
        r is Err ==> r == Err::<(), NeetError>(NeetError::Overflow) && *final(u) == *old(u),
        r is Ok ==> {
            &&& final(u).positions@ == funded_positions(old(u).positions@, mkt, rate)
            &&& final(u).collateral == funded_collateral(old(u).collateral as int, old(u).positions@, mkt, rate, MAX_POSITIONS as int)
            &&& final(u).authority == old(u).authority
            &&& final(u).margin_used == old(u).margin_used
            &&& final(u).realised_pnl == old(u).realised_pnl
            &&& final(u).bump == old(u).bump
        },
{
    let ghost ps0 = u.positions@;
    let mut positions = u.positions;
    let mut collateral = u.collateral;
    let mut i: usize = 0;
    while i < MAX_POSITIONS
        invariant
            0 <= i <= MAX_POSITIONS,
            ps0.len() == MAX_POSITIONS,
            positions@.len() == MAX_POSITIONS,
            ps0 == old(u).positions@,
            forall|j: int| 0 <= j < i ==> #[trigger] positions@[j] == funded_position(ps0[j], mkt, rate),
            forall|j: int| i <= j < MAX_POSITIONS ==> #[trigger] positions@[j] == ps0[j],
            forall|j: int| 0 <= j < i && funding_applies(#[trigger] ps0[j], mkt) ==> funding_net(ps0[j], rate) is Some,
            collateral == funded_collateral(old(u).collateral as int, ps0, mkt, rate, i as int),
        decreases MAX_POSITIONS - i,
    {
        let p = positions[i];
        if p.market_index != mkt || p.base_amount == 0 {
            i = i + 1;
            continue;
        }
        let delta = match rate.checked_sub(p.last_funding) {
            Some(v) => v,
            None => return Err(NeetError::Overflow),
        };
        let prod = match (p.base_amount as i64).checked_mul(delta) {
            Some(v) => v,
            None => return Err(NeetError::Overflow),
        };
        let pay = match prod.checked_div(FUNDING_PRECISION) {
            Some(v) => v,
            None => return Err(NeetError::Overflow),
        };
        let net = match p.direction {
            Direction::Long => pay,
            Direction::Short => -pay,
        };
        if net > 0 {
            collateral = collateral.saturating_sub(net as u64);
        } else {
            collateral = collateral.saturating_add((-net) as u64);
        }
        let mut q = p;
        q.last_funding = rate;
        positions[i] = q;
        i = i + 1;
    }
    assert(positions@ =~= funded_positions(ps0, mkt, rate));
    u.positions = positions;
    u.collateral = collateral;
    Ok(())
}

// ── Trading rules ─────────────────────────────────────────────────────────

/// Notional value of `base` units at `price`: `base * price / PRICE_PRECISION`,
/// narrowed to `u64`.
pub open spec fn notional_of(base: int, price: int) -> int {
    (((base * price) / (PRICE_PRECISION as int)) as u64) as int
}

/// The taker fee on a notional (0.07%, rounded down).
pub open spec fn taker_fee(notional: int) -> int {
    notional * (TAKER_FEE_BPS as int) / 10_000
}

/// The position in slot `p` after adding `base` units opened at `notional`.
pub open spec fn opened_position(p: Position, mkt: u8, dir: Direction, base: u64, notional: int, lev: u64, cum: i64) -> Position {
    Position {
        market_index: mkt,
        direction: dir,
        base_amount: (p.base_amount + base) as u64,
        quote_amount: (p.quote_amount + notional) as u64,
        open_notional: (p.open_notional + notional) as u64,
        leverage: lev,
        last_funding: cum,
    }
}

/// Whether opening succeeds, and into which slot. Checked in order: the
/// protocol is not paused, leverage is 1–10, the amount is nonzero, the
/// notional is within the limits, free collateral covers margin plus fee,
/// funding settles, a slot is available, and no total overflows.
pub open spec fn open_plan(
    paused: bool,
    total_fees: u64,
    u: UserAccount,
    mark: u64,
    cum: i64,
    mkt: u8,
    dir: Direction,
    base: u64,
    lev: u64,
) -> Result<int, NeetError> {
    let notional = notional_of(base as int, mark as int);
    let req = if lev == 0 { 0 } else { notional / (lev as int) };
    let fee = taker_fee(notional);
    let fp = funded_positions(u.positions@, mkt, cum);
    let fc = funded_collateral(u.collateral as int, u.positions@, mkt, cum, MAX_POSITIONS as int);
    if paused {
        Err(NeetError::Paused)
    } else if lev < 1 || lev > MAX_LEVERAGE {
        Err(NeetError::BadLeverage)
    } else if base == 0 {
        Err(NeetError::InvalidAmount)
    } else if notional < MIN_NOTIONAL_USDC {
        Err(NeetError::BelowMin)
    } else if notional > MAX_NOTIONAL_USDC {
        Err(NeetError::AboveMax)
    } else if free_of(u) < req + fee {
        Err(NeetError::InsufficientCollateral)
    } else if !funding_ok(u.positions@, mkt, cum) {
        Err(NeetError::Overflow)
    } else {
        match slot_index(fp, mkt, dir) {
            None => Err(NeetError::MaxPositions),
            Some(i) => {
                let p = fp[i];
                if p.base_amount + base > u64::MAX || p.quote_amount + notional > u64::MAX
                    || p.open_notional + notional > u64::MAX || fc < req + fee
                    || u.margin_used + req > u64::MAX || total_fees + fee > u64::MAX {
                    Err(NeetError::Overflow)
                } else {
                    Ok(i)
                }
            },
        }
    }
}

/// How much of a position a close request takes: all of it when the
/// request is zero or at least the position, else the request.
pub open spec fn close_amount(held: u64, requested: u64) -> u64 {
    if requested == 0 || requested >= held { held } else { requested }
}

/// Average entry price `quote * PRICE_PRECISION / base`, narrowed to `u64`.
pub open spec fn entry_price_of(p: Position) -> int {
    (((p.quote_amount * (PRICE_PRECISION as int)) / (p.base_amount as int)) as u64) as int
}

/// `amount * price / PRICE_PRECISION` in `i64` arithmetic (both factors
/// reinterpreted as `i64`, the quotient rounded toward zero).
pub open spec fn leg_value(amount: u64, price: int) -> int {
    trunc_div(((amount as i64) as int) * (((price as u64) as i64) as int), PRICE_PRECISION as int)
}

/// Whether the `i64` product inside `leg_value` fits.
pub open spec fn leg_fits(amount: u64, price: int) -> bool {
    let prod = ((amount as i64) as int) * (((price as u64) as i64) as int);
    i64::MIN <= prod <= i64::MAX
}

/// Realised PnL of closing `amount` of a position at `mark`.
pub open spec fn close_pnl(p: Position, amount: u64, mark: u64) -> int {
    let exit = leg_value(amount, mark as int);
    let entr = leg_value(amount, entry_price_of(p));
    match p.direction {
        Direction::Long => exit - entr,
        Direction::Short => entr - exit,
    }
}

/// Whether computing `close_pnl` stays within `i64` (else the program
/// aborts).
pub open spec fn close_pnl_fits(p: Position, amount: u64, mark: u64) -> bool {
    &&& leg_fits(amount, mark as int)
    &&& leg_fits(amount, entry_price_of(p))
    &&& i64::MIN <= close_pnl(p, amount, mark) <= i64::MAX
}

/// Margin released by closing `amount` of a position:
/// `open_notional * amount / base / max(leverage, 1)`.
pub open spec fn released_margin(p: Position, amount: u64) -> int {
    (p.open_notional * amount) / (p.base_amount as int) / (if p.leverage < 1 { 1int } else { p.leverage as int })
}

/// What a close credits (positive) or debits (negative): released margin
/// (reinterpreted as `i64`) plus PnL minus the fee.
pub open spec fn close_net(p: Position, amount: u64, mark: u64) -> int {
    let fee = taker_fee(notional_of(amount as int, mark as int));
    ((released_margin(p, amount) as u64) as i64) + close_pnl(p, amount, mark) - fee
}

/// Whether the released margin, fee and net of a close are all computable
/// without overflow.
pub open spec fn close_terms_fit(p: Position, amount: u64, mark: u64) -> bool {
    let cn = notional_of(amount as int, mark as int);
    let sum = ((released_margin(p, amount) as u64) as i64) + close_pnl(p, amount, mark);
    &&& cn * (TAKER_FEE_BPS as int) <= u64::MAX
    &&& p.open_notional * amount <= u64::MAX
    &&& i64::MIN <= sum <= i64::MAX
    &&& i64::MIN <= close_net(p, amount, mark) <= i64::MAX
}

/// Collateral after crediting or debiting `net`; a loss beyond the
/// collateral leaves zero (bad debt).
pub open spec fn collateral_after_close(c: int, net: int) -> int {
    if net >= 0 { c + net } else if -net > c { 0 } else { c + net }
}

/// The slot after closing `amount` of it: emptied when the whole position
/// closes, else reduced pro rata.
pub open spec fn closed_position(p: Position, amount: u64, closed_notional: int) -> Position {
    if amount >= p.base_amount {
        empty_position()
    } else {
        let remaining = p.base_amount - amount;
        Position {
            quote_amount: (((p.quote_amount * remaining) / (p.base_amount as int)) as u64),
            base_amount: remaining as u64,
            open_notional: (if p.open_notional - closed_notional < 0 { 0 } else { p.open_notional - closed_notional }) as u64,
            ..p
        }
    }
}

/// The slot a close acts on: the first open position in the market.
pub open spec fn close_slot(u: UserAccount, mkt: u8) -> int {
    first_slot(u.positions@, SlotQuery::Open(mkt), 0)->Some_0
}

/// The position being closed, after its funding settled.
pub open spec fn closing_position(u: UserAccount, mkt: u8, cum: i64) -> Position {
    funded_positions(u.positions@, mkt, cum)[close_slot(u, mkt)]
}

/// Whether a close gets as far as computing PnL.
pub open spec fn close_reaches_pnl(paused: bool, u: UserAccount, mkt: u8, cum: i64) -> bool {
    !paused && first_slot(u.positions@, SlotQuery::Open(mkt), 0) is Some && funding_ok(u.positions@, mkt, cum)
}

/// Whether a close runs without aborting: its PnL fits in `i64`, and a
/// negative net can be negated.
pub open spec fn close_defined(paused: bool, u: UserAccount, mark: u64, cum: i64, mkt: u8, base_amount: u64) -> bool {
    let p = closing_position(u, mkt, cum);
    let amount = close_amount(p.base_amount, base_amount);
    close_reaches_pnl(paused, u, mkt, cum) ==> {
        &&& close_pnl_fits(p, amount, mark)
        &&& (close_terms_fit(p, amount, mark) ==> close_net(p, amount, mark) != i64::MIN)
    }
}

/// Whether a close succeeds. Checked in order: not paused, an open
/// position exists, funding settles, and no fee, margin, collateral, PnL
/// or fee-total arithmetic overflows.
pub open spec fn close_plan(paused: bool, total_fees: u64, u: UserAccount, mark: u64, cum: i64, mkt: u8, base_amount: u64) -> Result<(), NeetError> {
    let p = closing_position(u, mkt, cum);
    let amount = close_amount(p.base_amount, base_amount);
    let fc = funded_collateral(u.collateral as int, u.positions@, mkt, cum, MAX_POSITIONS as int);
    let net = close_net(p, amount, mark);
    let fee = taker_fee(notional_of(amount as int, mark as int));
    if paused {
        Err(NeetError::Paused)
    } else if first_slot(u.positions@, SlotQuery::Open(mkt), 0) is None {
        Err(NeetError::NoPosition)
    } else if !funding_ok(u.positions@, mkt, cum) {
        Err(NeetError::Overflow)
    } else if !close_terms_fit(p, amount, mark) || (net >= 0 && fc + net > u64::MAX)
        || u.realised_pnl + close_pnl(p, amount, mark) > i64::MAX
        || u.realised_pnl + close_pnl(p, amount, mark) < i64::MIN
        || total_fees + fee > u64::MAX {
        Err(NeetError::Overflow)
    } else {
        Ok(())
    }
}

// ── Instructions ──────────────────────────────────────────────────────────

/// Sets up the protocol state: the admin, the collateral mint, trading
/// enabled and no fees collected.
pub fn initialize(state: &mut ProtocolState, admin: Pubkey, usdc_mint: Pubkey, bump: u8, now: i64) -> (ev: ProtocolInit)
    ensures
        *final(state) == (ProtocolState { admin, usdc_mint, paused: false, total_fees: 0, bump }),
        ev == (ProtocolInit { admin, ts: now }),
{
    state.admin = admin;
    state.usdc_mint = usdc_mint;
    state.paused = false;
    state.total_fees = 0;
    state.bump = bump;
    ProtocolInit { admin: state.admin, ts: now }
}

/// Pauses or resumes trading.
pub fn set_paused(state: &mut ProtocolState, paused: bool, now: i64) -> (ev: TradingPaused)
    ensures
        *final(state) == (ProtocolState { paused, ..*old(state) }),
        ev == (TradingPaused { paused, ts: now }),
{
    state.paused = paused;
    TradingPaused { paused, ts: now }
}

/// Credits a deposit of `amount` to the user's collateral (the token
/// transfer into the vault is made by the caller), recording `authority`
/// as the account's owner.
pub fn deposit_collateral(state: &ProtocolState, user: &mut UserAccount, authority: Pubkey, amount: u64, now: i64) -> (r: Result<Deposit, NeetError>)
    ensures
        r == (if state.paused {
            Err::<Deposit, NeetError>(NeetError::Paused)
        } else if amount == 0 {
            Err(NeetError::InvalidAmount)
        } else if old(user).collateral + amount > u64::MAX {
            Err(NeetError::Overflow)
        } else {
            Ok(Deposit { user: authority, amount, ts: now })
        }),
        r is Ok ==> *final(user) == (UserAccount { authority, collateral: (old(user).collateral + amount) as u64, ..*old(user) }),
        r is Err ==> *final(user) == *old(user),
{
    if state.paused {
        return Err(NeetError::Paused);
    }
    if amount == 0 {
        return Err(NeetError::InvalidAmount);
    }
    let collateral = match user.collateral.checked_add(amount) {
        Some(v) => v,
        None => return Err(NeetError::Overflow),
    };
    user.authority = authority;
    user.collateral = collateral;
    Ok(Deposit { user: user.authority, amount, ts: now })
}

/// Debits a withdrawal of `amount` from the user's free collateral (the
/// token transfer out of the vault is made by the caller).
pub fn withdraw_collateral(state: &ProtocolState, user: &mut UserAccount, amount: u64, now: i64) -> (r: Result<Withdraw, NeetError>)
    ensures
        r == (if state.paused {
            Err::<Withdraw, NeetError>(NeetError::Paused)
        } else if amount == 0 {
            Err(NeetError::InvalidAmount)
        } else if amount > free_of(*old(user)) {
            Err(NeetError::InsufficientCollateral)
        } else {
            Ok(Withdraw { user: old(user).authority, amount, ts: now })
        }),
        r is Ok ==> *final(user) == (UserAccount { collateral: (old(user).collateral - amount) as u64, ..*old(user) }),
        r is Err ==> *final(user) == *old(user),
{
    if state.paused {
        return Err(NeetError::Paused);
    }
    if amount == 0 {
        return Err(NeetError::InvalidAmount);
    }
    let free = free_collateral(user);
    if amount > free {
        return Err(NeetError::InsufficientCollateral);
    }
    let collateral = match user.collateral.checked_sub(amount) {
        Some(v) => v,
        None => return Err(NeetError::Overflow),
    };
    user.collateral = collateral;
    Ok(Withdraw { user: user.authority, amount, ts: now })
}

/// Settles the user's funding in market `market_index` at the market's
/// cumulative funding rate.
pub fn settle_funding(user: &mut UserAccount, market: &MarketState, market_index: u8) -> (r: Result<(), NeetError>)
    ensures
        r is Ok <==> funding_ok(old(user).positions@, market_index, market.cumulative_funding_rate),
        r is Err ==> r == Err::<(), NeetError>(NeetError::Overflow) && *final(user) == *old(user),
        r is Ok ==> {
            &&& final(user).positions@ == funded_positions(old(user).positions@, market_index, market.cumulative_funding_rate)
            &&& final(user).collateral == funded_collateral(old(user).collateral as int, old(user).positions@, market_index, market.cumulative_funding_rate, MAX_POSITIONS as int)
            &&& final(user).authority == old(user).authority
            &&& final(user).margin_used == old(user).margin_used
            &&& final(user).realised_pnl == old(user).realised_pnl
            &&& final(user).bump == old(user).bump
        },
{
    let rate = market.cumulative_funding_rate;
    apply_funding(user, market_index, rate)
}

/// `base * price / PRICE_PRECISION` narrowed to `u64`, as the program
/// computes notionals (the `u128` product of two `u64` values cannot
/// overflow).
fn notional_u64(base: u64, price: u64) -> (r: u64)
    ensures
        r == notional_of(base as int, price as int),
{
    assert((base as u128) * (price as u128) <= u128::MAX) by (nonlinear_arith)
        requires
            base <= u64::MAX,
            price <= u64::MAX,
    ;
    let scaled = (base as u128) * (price as u128);
    (scaled / (PRICE_PRECISION as u128)) as u64
}

/// Opens (or adds to) a position of `base_amount` units in a market at its
/// mark price with the given leverage. Margin `notional / leverage` is
/// locked and the taker fee charged, both out of collateral; funding in the
/// market settles first. The position goes to the user's open slot on the
/// same side, else to the first free slot.
pub fn open_position(
    state: &mut ProtocolState,
    user: &mut UserAccount,
    market: &MarketState,
    market_index: u8,
    direction: Direction,
    base_amount: u64,
    leverage: u64,
    now: i64,
) -> (r: Result<PositionOpened, NeetError>)
    ensures
        ({
            let cum = market.cumulative_funding_rate;
            let plan = open_plan(old(state).paused, old(state).total_fees, *old(user), market.mark_price, cum, market_index, direction, base_amount, leverage);
            let notional = notional_of(base_amount as int, market.mark_price as int);
            let req = notional / (leverage as int);
            let fee = taker_fee(notional);
            let fp = funded_positions(old(user).positions@, market_index, cum);
            let fc = funded_collateral(old(user).collateral as int, old(user).positions@, market_index, cum, MAX_POSITIONS as int);
            match r {
                Ok(ev) => {
                    &&& plan is Ok
                    &&& final(user).positions@ == fp.update(
                        plan->Ok_0,
                        opened_position(fp[plan->Ok_0], market_index, direction, base_amount, notional, leverage, cum),
                    )
                    &&& final(user).collateral == fc - (req + fee)
                    &&& final(user).margin_used == old(user).margin_used + req
                    &&& final(user).authority == old(user).authority
                    &&& final(user).realised_pnl == old(user).realised_pnl
                    &&& final(user).bump == old(user).bump
                    &&& *final(state) == (ProtocolState { total_fees: (old(state).total_fees + fee) as u64, ..*old(state) })
                    &&& ev == (PositionOpened {
                        user: old(user).authority,
                        market: market_index,
                        direction,
                        base_amount,
                        notional: notional as u64,
                        entry_price: market.mark_price,
                        leverage,
                        fee: fee as u64,
                        ts: now,
                    })
                },
                Err(e) => {
                    &&& plan == Err::<int, NeetError>(e)
                    &&& *final(user) == *old(user)
                    &&& *final(state) == *old(state)
                },
            }
        }),
{
    if state.paused {
        return Err(NeetError::Paused);
    }
    if !(leverage >= 1 && leverage <= MAX_LEVERAGE) {
        return Err(NeetError::BadLeverage);
    }
    if base_amount == 0 {
        return Err(NeetError::InvalidAmount);
    }
    let mark_price = market.mark_price;
    let notional = notional_u64(base_amount, mark_price);
    if notional < MIN_NOTIONAL_USDC {
        return Err(NeetError::BelowMin);
    }
    if notional > MAX_NOTIONAL_USDC {
        return Err(NeetError::AboveMax);
    }
    let req_margin = match notional.checked_div(leverage) {
        Some(v) => v,
        None => return Err(NeetError::Overflow),
    };
    let fee = match notional.checked_mul(TAKER_FEE_BPS) {
        Some(v) => v / 10_000,
        None => return Err(NeetError::Overflow),
    };
    let total_deduct = match req_margin.checked_add(fee) {
        Some(v) => v,
        None => return Err(NeetError::Overflow),
    };
    let cum_rate = market.cumulative_funding_rate;
    let free = free_collateral(user);
    if free < total_deduct {
        return Err(NeetError::InsufficientCollateral);
    }
    let mut u = *user;
    match apply_funding(&mut u, market_index, cum_rate) {
        Ok(()) => {},
        Err(e) => return Err(e),
    }
    proof {
        lemma_funded_collateral_in_range(old(user).collateral as int, old(user).positions@, market_index, cum_rate, MAX_POSITIONS as int);
    }
    let idx = match slot_for(&u, market_index, direction) {
        Ok(i) => i,
        Err(e) => return Err(e),
    };
    proof {
        lemma_first_slot(u.positions@, SlotQuery::Side(market_index, direction), 0);
        lemma_first_slot(u.positions@, SlotQuery::Free, 0);
    }
    let mut p = u.positions[idx];
    p.market_index = market_index;
    p.direction = direction;
    p.base_amount = match p.base_amount.checked_add(base_amount) {
        Some(v) => v,
        None => return Err(NeetError::Overflow),
    };
    p.quote_amount = match p.quote_amount.checked_add(notional) {
        Some(v) => v,
        None => return Err(NeetError::Overflow),
    };
    p.open_notional = match p.open_notional.checked_add(notional) {
        Some(v) => v,
        None => return Err(NeetError::Overflow),
    };
    p.leverage = leverage;
    p.last_funding = cum_rate;
    let collateral = match u.collateral.checked_sub(total_deduct) {
        Some(v) => v,
        None => return Err(NeetError::Overflow),
    };
    let margin_used = match u.margin_used.checked_add(req_margin) {
        Some(v) => v,
        None => return Err(NeetError::Overflow),
    };
    let total_fees = match state.total_fees.checked_add(fee) {
        Some(v) => v,
        None => return Err(NeetError::Overflow),
    };
    u.positions[idx] = p;
    u.collateral = collateral;
    u.margin_used = margin_used;
    *user = u;
    state.total_fees = total_fees;
    Ok(PositionOpened {
        user: user.authority,
        market: market_index,
        direction,
        base_amount,
        notional,
        entry_price: mark_price,
        leverage,
        fee,
        ts: now,
    })
}

/// Closes `base_amount` units of the user's first open position in a
/// market (all of it when `base_amount` is zero or covers the position) at
/// the mark price, after settling funding. The released margin plus PnL
/// minus the taker fee is credited to (or debited from) collateral; a loss
/// beyond the collateral zeroes it and reports bad debt.
pub fn close_position(
    state: &mut ProtocolState,
    user: &mut UserAccount,
    market: &MarketState,
    market_index: u8,
    base_amount: u64,
    now: i64,
) -> (r: Result<(Option<BadDebt>, PositionClosed), NeetError>)
    requires
        close_defined(old(state).paused, *old(user), market.mark_price, market.cumulative_funding_rate, market_index, base_amount),
    ensures
        ({
            let cum = market.cumulative_funding_rate;
            let mark = market.mark_price;
            let plan = close_plan(old(state).paused, old(state).total_fees, *old(user), mark, cum, market_index, base_amount);
            let fp = funded_positions(old(user).positions@, market_index, cum);
            let fc = funded_collateral(old(user).collateral as int, old(user).positions@, market_index, cum, MAX_POSITIONS as int);
            let idx = close_slot(*old(user), market_index);
            let p = closing_position(*old(user), market_index, cum);
            let amount = close_amount(p.base_amount, base_amount);
            let cn = notional_of(amount as int, mark as int);
            let fee = taker_fee(cn);
            let pnl = close_pnl(p, amount, mark);
            let net = close_net(p, amount, mark);
            let rel = released_margin(p, amount);
            match r {
                Ok((bad_debt, ev)) => {
                    &&& plan is Ok
                    &&& final(user).collateral == collateral_after_close(fc, net)
                    &&& final(user).margin_used == (if old(user).margin_used < rel { 0 } else { old(user).margin_used - rel })
                    &&& final(user).realised_pnl == old(user).realised_pnl + pnl
                    &&& final(user).positions@ == fp.update(idx, closed_position(p, amount, cn))
                    &&& final(user).authority == old(user).authority
                    &&& final(user).bump == old(user).bump
                    &&& *final(state) == (ProtocolState { total_fees: (old(state).total_fees + fee) as u64, ..*old(state) })
                    &&& bad_debt == (if net < 0 && -net > fc {
                        Some(BadDebt { user: old(user).authority, market: market_index, ts: now })
                    } else {
                        None
                    })
                    &&& ev == (PositionClosed {
                        user: old(user).authority,
                        market: market_index,
                        close_amount: amount,
                        exit_price: mark,
                        pnl: pnl as i64,
                        fee: fee as u64,
                        ts: now,
                    })
                },
                Err(e) => {
                    &&& plan == Err::<(), NeetError>(e)
                    &&& *final(user) == *old(user)
                    &&& *final(state) == *old(state)
                },
            }
        }),
{
    if state.paused {
        return Err(NeetError::Paused);
    }
    let mark_price = market.mark_price;
    let cum_rate = market.cumulative_funding_rate;
    let idx = match find_pos(user, market_index) {
        Some(i) => i,
        None => return Err(NeetError::NoPosition),
    };
    proof {
        lemma_first_slot(old(user).positions@, SlotQuery::Open(market_index), 0);
    }
    let mut u = *user;
    match apply_funding(&mut u, market_index, cum_rate) {
        Ok(()) => {},
        Err(e) => return Err(e),
    }
    proof {
        lemma_funded_collateral_in_range(old(user).collateral as int, old(user).positions@, market_index, cum_rate, MAX_POSITIONS as int);
    }
    let p = u.positions[idx];
    assert(p == closing_position(*old(user), market_index, cum_rate));
    let close_amt = if base_amount == 0 || base_amount >= p.base_amount { p.base_amount } else { base_amount };

    assert((p.quote_amount as u128) * (PRICE_PRECISION as u128) <= u128::MAX) by (nonlinear_arith)
        requires
            p.quote_amount <= u64::MAX,
    ;
    let entry_price = ((p.quote_amount as u128) * (PRICE_PRECISION as u128) / (p.base_amount as u128)) as u64;

    let pnl: i64 = match p.direction {
        Direction::Long => {
            let exit = (close_amt as i64) * (mark_price as i64) / PRICE_PRECISION as i64;
            let entr = (close_amt as i64) * (entry_price as i64) / PRICE_PRECISION as i64;
            exit - entr
        },
        Direction::Short => {
            let entr = (close_amt as i64) * (entry_price as i64) / PRICE_PRECISION as i64;
            let exit = (close_amt as i64) * (mark_price as i64) / PRICE_PRECISION as i64;
            entr - exit
        },
    };

    let closed_notional = notional_u64(close_amt, mark_price);
    let fee = match closed_notional.checked_mul(TAKER_FEE_BPS) {
        Some(v) => v / 10_000,
        None => return Err(NeetError::Overflow),
    };
    let lev = if p.leverage < 1 { 1 } else { p.leverage };
    let rel_margin = match p.open_notional.checked_mul(close_amt) {
        Some(v) => v / p.base_amount / lev,
        None => return Err(NeetError::Overflow),
    };
    let net = match (rel_margin as i64).checked_add(pnl) {
        Some(v) => v,
        None => return Err(NeetError::Overflow),
    };
    let net = match net.checked_sub(fee as i64) {
        Some(v) => v,
        None => return Err(NeetError::Overflow),
    };
    let mut bad_debt: Option<BadDebt> = None;
    if net >= 0 {
        u.collateral = match u.collateral.checked_add(net as u64) {
            Some(v) => v,
            None => return Err(NeetError::Overflow),
        };
    } else {
        let loss = (-net) as u64;
        if loss > u.collateral {
            bad_debt = Some(BadDebt { user: u.authority, market: market_index, ts: now });
            u.collateral = 0;
        } else {
            u.collateral = u.collateral - loss;
        }
    }
    u.margin_used = u.margin_used.saturating_sub(rel_margin);
    u.realised_pnl = match u.realised_pnl.checked_add(pnl) {
        Some(v) => v,
        None => return Err(NeetError::Overflow),
    };
    let total_fees = match state.total_fees.checked_add(fee) {
        Some(v) => v,
        None => return Err(NeetError::Overflow),
    };

    let mut p2 = u.positions[idx];
    if close_amt >= p2.base_amount {
        p2 = Position::default();
    } else {
        let remaining = p2.base_amount.saturating_sub(close_amt);
        assert((p2.quote_amount as u128) * (remaining as u128) <= u128::MAX) by (nonlinear_arith)
            requires
                p2.quote_amount <= u64::MAX,
                remaining <= u64::MAX,
        ;
        p2.quote_amount = ((p2.quote_amount as u128) * (remaining as u128) / (p2.base_amount as u128)) as u64;
        p2.base_amount = remaining;
        p2.open_notional = p2.open_notional.saturating_sub(closed_notional);
    }
    u.positions[idx] = p2;

    *user = u;
    state.total_fees = total_fees;
    Ok((bad_debt, PositionClosed {
        user: user.authority,
        market: market_index,
        close_amount: close_amt,
        exit_price: mark_price,
        pnl,
        fee,
        ts: now,
    }))
}

/// Whether `close_position` runs without aborting on these inputs (the
/// condition its `requires` states), for callers to test before calling.
pub fn close_position_defined(
    state: &ProtocolState,
    user: &UserAccount,
    market: &MarketState,
    market_index: u8,
    base_amount: u64,
) -> (b: bool)
    ensures
        b == close_defined(state.paused, *user, market.mark_price, market.cumulative_funding_rate, market_index, base_amount),
{
    if state.paused {
        return true;
    }
    let mark_price = market.mark_price;
    let cum_rate = market.cumulative_funding_rate;
    let idx = match find_pos(user, market_index) {
        Some(i) => i,
        None => return true,
    };
    proof {
        lemma_first_slot(user.positions@, SlotQuery::Open(market_index), 0);
    }
    let mut u = *user;
    if apply_funding(&mut u, market_index, cum_rate).is_err() {
        return true;
    }
    let p = u.positions[idx];
    let close_amt = if base_amount == 0 || base_amount >= p.base_amount { p.base_amount } else { base_amount };
    assert((p.quote_amount as u128) * (PRICE_PRECISION as u128) <= u128::MAX) by (nonlinear_arith)
        requires
            p.quote_amount <= u64::MAX,
    ;
    let entry_price = ((p.quote_amount as u128) * (PRICE_PRECISION as u128) / (p.base_amount as u128)) as u64;
    let exit = match (close_amt as i64).checked_mul(mark_price as i64) {
        Some(v) => v / PRICE_PRECISION as i64,
        None => return false,
    };
    let entr = match (close_amt as i64).checked_mul(entry_price as i64) {
        Some(v) => v / PRICE_PRECISION as i64,
        None => return false,
    };
    let pnl = match p.direction {
        Direction::Long => exit.checked_sub(entr),
        Direction::Short => entr.checked_sub(exit),
    };
    let pnl = match pnl {
        Some(v) => v,
        None => return false,
    };
    let closed_notional = notional_u64(close_amt, mark_price);
    let fee = match closed_notional.checked_mul(TAKER_FEE_BPS) {
        Some(v) => v / 10_000,
        None => return true,
    };
    let lev = if p.leverage < 1 { 1 } else { p.leverage };
    let rel_margin = match p.open_notional.checked_mul(close_amt) {
        Some(v) => v / p.base_amount / lev,
        None => return true,
    };
    let net = match (rel_margin as i64).checked_add(pnl) {
        Some(v) => v,
        None => return true,
    };
    let net = match net.checked_sub(fee as i64) {
        Some(v) => v,
        None => return true,
    };
    net != i64::MIN
}

// ── Laws ──────────────────────────────────────────────────────────────────

/// Settling funding a second time at the same cumulative rate changes
/// nothing: the positions already carry the rate, so nothing more is paid.
pub proof fn law_funding_settles_once(c: u64, ps: Seq<Position>, mkt: u8, rate: i64, n: int)
    requires
        funding_ok(ps, mkt, rate),
        0 <= n <= ps.len(),
    ensures
        funding_ok(funded_positions(ps, mkt, rate), mkt, rate),
        funded_positions(funded_positions(ps, mkt, rate), mkt, rate) == funded_positions(ps, mkt, rate),
        funded_collateral(c as int, funded_positions(ps, mkt, rate), mkt, rate, n) == c,
{
    lemma_funding_noop(c as int, funded_positions(ps, mkt, rate), mkt, rate, n);
}

/// Where every position funding applies to already carries `rate`,
/// settling at `rate` changes neither the positions nor the collateral.
proof fn lemma_funding_noop(c: int, ps: Seq<Position>, mkt: u8, rate: i64, n: int)
    requires
        forall|i: int| 0 <= i < ps.len() && funding_applies(#[trigger] ps[i], mkt) ==> ps[i].last_funding == rate,
        0 <= n <= ps.len(),
        0 <= c <= u64::MAX,
    ensures
        funding_ok(ps, mkt, rate),
        funded_positions(ps, mkt, rate) == ps,
        funded_collateral(c, ps, mkt, rate, n) == c,
    decreases n,
{
    assert forall|i: int| 0 <= i < ps.len() && funding_applies(#[trigger] ps[i], mkt) implies funding_net(ps[i], rate) == Some(0int) by {
        assert(trunc_div(0, FUNDING_PRECISION as int) == 0);
    }
    assert(funded_positions(ps, mkt, rate) =~= ps);
    if n > 0 {
        lemma_funding_noop(c, ps, mkt, rate, n - 1);
        if funding_applies(ps[n - 1], mkt) {
            assert(funding_net(ps[n - 1], rate) == Some(0int));
        }
    }
}

/// Funding is zero-sum between sides: a long and a short of the same size
/// that last settled at the same rate pay and receive the same amount.
pub proof fn law_funding_zero_sum(long: Position, short: Position, rate: i64)
    requires
        long.direction == Direction::Long,
        short.direction == Direction::Short,
        long.base_amount == short.base_amount,
        long.last_funding == short.last_funding,
    ensures
        funding_net(long, rate) matches Some(l) ==> funding_net(short, rate) == Some(-l),
        funding_net(long, rate) is None ==> funding_net(short, rate) is None,
{
}

/// Funding leaves positions in other markets, and free slots, untouched.
pub proof fn law_funding_only_touches_market(ps: Seq<Position>, mkt: u8, rate: i64, i: int)
    requires
        0 <= i < ps.len(),
        ps[i].market_index != mkt || ps[i].base_amount == 0,
    ensures
        funded_positions(ps, mkt, rate)[i] == ps[i],
{
}

/// No two open slots hold the same market on the same side.
pub open spec fn one_slot_per_side(ps: Seq<Position>) -> bool {
    forall|i: int, j: int|
        #![trigger ps[i], ps[j]]
        0 <= i < ps.len() && 0 <= j < ps.len() && i != j && ps[i].base_amount > 0 && ps[j].base_amount > 0
            && ps[i].market_index == ps[j].market_index ==> ps[i].direction != ps[j].direction
}

proof fn lemma_funding_keeps_one_slot_per_side(ps: Seq<Position>, mkt: u8, rate: i64)
    requires
        one_slot_per_side(ps),
    ensures
        one_slot_per_side(funded_positions(ps, mkt, rate)),
{
    let fp = funded_positions(ps, mkt, rate);
    assert forall|i: int, j: int|
        0 <= i < fp.len() && 0 <= j < fp.len() && i != j && fp[i].base_amount > 0 && fp[j].base_amount > 0
            && fp[i].market_index == fp[j].market_index implies fp[i].direction != fp[j].direction by {
        assert(ps[i].direction != ps[j].direction);
    }
}

/// Opening a position keeps at most one open slot per market and side: it
/// adds to the open slot on that side if there is one, and otherwise takes
/// a free slot.
pub proof fn law_open_keeps_one_slot_per_side(
    paused: bool,
    total_fees: u64,
    u: UserAccount,
    mark: u64,
    cum: i64,
    mkt: u8,
    dir: Direction,
    base: u64,
    lev: u64,
)
    requires
        one_slot_per_side(u.positions@),
        open_plan(paused, total_fees, u, mark, cum, mkt, dir, base, lev) is Ok,
    ensures
        ({
            let fp = funded_positions(u.positions@, mkt, cum);
            let idx = open_plan(paused, total_fees, u, mark, cum, mkt, dir, base, lev)->Ok_0;
            let notional = notional_of(base as int, mark as int);
            one_slot_per_side(fp.update(idx, opened_position(fp[idx], mkt, dir, base, notional, lev, cum)))
        }),
{
    let fp = funded_positions(u.positions@, mkt, cum);
    let idx = open_plan(paused, total_fees, u, mark, cum, mkt, dir, base, lev)->Ok_0;
    let notional = notional_of(base as int, mark as int);
    let np = opened_position(fp[idx], mkt, dir, base, notional, lev, cum);
    let ps2 = fp.update(idx, np);
    lemma_funding_keeps_one_slot_per_side(u.positions@, mkt, cum);
    lemma_first_slot(fp, SlotQuery::Side(mkt, dir), 0);
    lemma_first_slot(fp, SlotQuery::Free, 0);
    assert forall|i: int, j: int|
        0 <= i < ps2.len() && 0 <= j < ps2.len() && i != j && ps2[i].base_amount > 0 && ps2[j].base_amount > 0
            && ps2[i].market_index == ps2[j].market_index implies ps2[i].direction != ps2[j].direction by {
        if i == idx {
            assert(!slot_matches(fp[j], SlotQuery::Side(mkt, dir)) || first_slot(fp, SlotQuery::Side(mkt, dir), 0) == Some(idx));
        } else if j == idx {
            assert(!slot_matches(fp[i], SlotQuery::Side(mkt, dir)) || first_slot(fp, SlotQuery::Side(mkt, dir), 0) == Some(idx));
        } else {
            assert(fp[i].direction != fp[j].direction);
        }
    }
}

/// Closing keeps at most one open slot per market and side: it only
/// shrinks or empties the slot it closes.
pub proof fn law_close_keeps_one_slot_per_side(u: UserAccount, mark: u64, cum: i64, mkt: u8, base_amount: u64)
    requires
        one_slot_per_side(u.positions@),
        first_slot(u.positions@, SlotQuery::Open(mkt), 0) is Some,
    ensures
        ({
            let fp = funded_positions(u.positions@, mkt, cum);
            let p = closing_position(u, mkt, cum);
            let amount = close_amount(p.base_amount, base_amount);
            let cn = notional_of(amount as int, mark as int);
            one_slot_per_side(fp.update(close_slot(u, mkt), closed_position(p, amount, cn)))
        }),
{
    let fp = funded_positions(u.positions@, mkt, cum);
    let idx = close_slot(u, mkt);
    let p = closing_position(u, mkt, cum);
    let amount = close_amount(p.base_amount, base_amount);
    let cn = notional_of(amount as int, mark as int);
    let ps2 = fp.update(idx, closed_position(p, amount, cn));
    lemma_first_slot(u.positions@, SlotQuery::Open(mkt), 0);
    lemma_funding_keeps_one_slot_per_side(u.positions@, mkt, cum);
    assert forall|i: int, j: int|
        0 <= i < ps2.len() && 0 <= j < ps2.len() && i != j && ps2[i].base_amount > 0 && ps2[j].base_amount > 0
            && ps2[i].market_index == ps2[j].market_index implies ps2[i].direction != ps2[j].direction by {
        assert(fp[i].direction != fp[j].direction);
    }
}

/// Closing the whole position (a zero request, or one that covers it)
/// frees its slot.
pub proof fn law_full_close_frees_slot(p: Position, requested: u64, cn: int)
    requires
        requested == 0 || requested >= p.base_amount,
    ensures
        close_amount(p.base_amount, requested) == p.base_amount,
        closed_position(p, close_amount(p.base_amount, requested), cn) == empty_position(),
{
}

/// A position is opened only with leverage 1–10, a notional within the
/// limits, and free collateral (before funding) covering its margin and
/// fee.
pub proof fn law_open_is_collateralised(
    paused: bool,
    total_fees: u64,
    u: UserAccount,
    mark: u64,
    cum: i64,
    mkt: u8,
    dir: Direction,
    base: u64,
    lev: u64,
)
    requires
        open_plan(paused, total_fees, u, mark, cum, mkt, dir, base, lev) is Ok,
    ensures
        ({
            let notional = notional_of(base as int, mark as int);
            &&& !paused
            &&& 1 <= lev <= MAX_LEVERAGE
            &&& MIN_NOTIONAL_USDC <= notional <= MAX_NOTIONAL_USDC
            &&& free_of(u) >= notional / (lev as int) + taker_fee(notional)
        }),
{
}

/// Every free slot (zero base) holds the empty position.
pub open spec fn free_slots_empty(ps: Seq<Position>) -> bool {
    forall|i: int| 0 <= i < ps.len() && (#[trigger] ps[i]).base_amount == 0 ==> ps[i] == empty_position()
}

proof fn lemma_funding_keeps_free_slots_empty(ps: Seq<Position>, mkt: u8, rate: i64)
    requires
        free_slots_empty(ps),
    ensures
        free_slots_empty(funded_positions(ps, mkt, rate)),
{
    let fp = funded_positions(ps, mkt, rate);
    assert forall|i: int| 0 <= i < fp.len() && (#[trigger] fp[i]).base_amount == 0 implies fp[i] == empty_position() by {
        assert(ps[i].base_amount == 0);
    }
}

/// Opening a position keeps every free slot empty: the slot it fills ends
/// up with a nonzero base.
pub proof fn law_open_keeps_free_slots_empty(
    paused: bool,
    total_fees: u64,
    u: UserAccount,
    mark: u64,
    cum: i64,
    mkt: u8,
    dir: Direction,
    base: u64,
    lev: u64,
)
    requires
        free_slots_empty(u.positions@),
        open_plan(paused, total_fees, u, mark, cum, mkt, dir, base, lev) is Ok,
    ensures
        ({
            let fp = funded_positions(u.positions@, mkt, cum);
            let idx = open_plan(paused, total_fees, u, mark, cum, mkt, dir, base, lev)->Ok_0;
            let notional = notional_of(base as int, mark as int);
            free_slots_empty(fp.update(idx, opened_position(fp[idx], mkt, dir, base, notional, lev, cum)))
        }),
{
    let fp = funded_positions(u.positions@, mkt, cum);
    lemma_funding_keeps_free_slots_empty(u.positions@, mkt, cum);
    lemma_first_slot(fp, SlotQuery::Side(mkt, dir), 0);
    lemma_first_slot(fp, SlotQuery::Free, 0);
}

/// Closing keeps every free slot empty: a closed-out slot is reset to the
/// empty position, and a partly closed one keeps a nonzero base.
pub proof fn law_close_keeps_free_slots_empty(u: UserAccount, mark: u64, cum: i64, mkt: u8, base_amount: u64)
    requires
        free_slots_empty(u.positions@),
        first_slot(u.positions@, SlotQuery::Open(mkt), 0) is Some,
    ensures
        ({
            let fp = funded_positions(u.positions@, mkt, cum);
            let p = closing_position(u, mkt, cum);
            let amount = close_amount(p.base_amount, base_amount);
            let cn = notional_of(amount as int, mark as int);
            free_slots_empty(fp.update(close_slot(u, mkt), closed_position(p, amount, cn)))
        }),
{
    lemma_first_slot(u.positions@, SlotQuery::Open(mkt), 0);
    lemma_funding_keeps_free_slots_empty(u.positions@, mkt, cum);
}

/// Opening a position in a market where the user holds none, then closing
/// all of it at the same mark price and funding rate, costs exactly the two
/// taker fees: collateral ends `2 * fee` below its (funding-settled) value,
/// margin and realised PnL are unchanged, the slot is free again and the
/// protocol has collected both fees. (Stated where the notional
/// `base * mark / PRICE_PRECISION` neither wraps nor rounds, so that the
/// entry price is exactly the mark price, and where the close's margin
/// product fits in `u64`.)
pub proof fn law_open_close_round_trip(
    total_fees: u64,
    u: UserAccount,
    u2: UserAccount,
    mark: u64,
    cum: i64,
    mkt: u8,
    dir: Direction,
    base: u64,
    lev: u64,
)
    requires
        free_slots_empty(u.positions@),
        first_slot(u.positions@, SlotQuery::Open(mkt), 0) is None,
        open_plan(false, total_fees, u, mark, cum, mkt, dir, base, lev) is Ok,
        (base * mark) / (PRICE_PRECISION as int) <= u64::MAX,
        (base * mark) % (PRICE_PRECISION as int) == 0,
        notional_of(base as int, mark as int) * base <= u64::MAX,
        total_fees + 2 * taker_fee(notional_of(base as int, mark as int)) <= u64::MAX,
        ({
            let notional = notional_of(base as int, mark as int);
            let fp = funded_positions(u.positions@, mkt, cum);
            let idx = open_plan(false, total_fees, u, mark, cum, mkt, dir, base, lev)->Ok_0;
            &&& u2.positions@ == fp.update(idx, opened_position(fp[idx], mkt, dir, base, notional, lev, cum))
            &&& u2.collateral == funded_collateral(u.collateral as int, u.positions@, mkt, cum, MAX_POSITIONS as int)
                - (notional / (lev as int) + taker_fee(notional))
            &&& u2.margin_used == u.margin_used + notional / (lev as int)
            &&& u2.realised_pnl == u.realised_pnl
        }),
    ensures
        ({
            let notional = notional_of(base as int, mark as int);
            let fee = taker_fee(notional);
            let fc = funded_collateral(u.collateral as int, u.positions@, mkt, cum, MAX_POSITIONS as int);
            let p = closing_position(u2, mkt, cum);
            let amount = close_amount(p.base_amount, 0);
            let rel = released_margin(p, amount);
            &&& close_defined(false, u2, mark, cum, mkt, 0)
            &&& close_plan(false, (total_fees + fee) as u64, u2, mark, cum, mkt, 0) is Ok
            &&& close_pnl(p, amount, mark) == 0
            &&& taker_fee(notional_of(amount as int, mark as int)) == fee
            &&& collateral_after_close(
                funded_collateral(u2.collateral as int, u2.positions@, mkt, cum, MAX_POSITIONS as int),
                close_net(p, amount, mark),
            ) == fc - 2 * fee
            &&& (if u2.margin_used < rel { 0 } else { u2.margin_used - rel }) == u.margin_used
            &&& funded_positions(u2.positions@, mkt, cum).update(
                close_slot(u2, mkt),
                closed_position(p, amount, notional_of(amount as int, mark as int)),
            ) == funded_positions(u.positions@, mkt, cum)
        }),
{
    let notional = notional_of(base as int, mark as int);
    let fee = taker_fee(notional);
    let req = notional / (lev as int);
    let fp = funded_positions(u.positions@, mkt, cum);
    let idx = open_plan(false, total_fees, u, mark, cum, mkt, dir, base, lev)->Ok_0;
    let np = opened_position(fp[idx], mkt, dir, base, notional, lev, cum);
    let ps2 = u2.positions@;

    // The slot opened is a free slot of the funded positions.
    lemma_funding_keeps_free_slots_empty(u.positions@, mkt, cum);
    lemma_first_slot(u.positions@, SlotQuery::Open(mkt), 0);
    lemma_first_slot(fp, SlotQuery::Side(mkt, dir), 0);
    lemma_first_slot(fp, SlotQuery::Free, 0);
    assert(fp[idx] == empty_position());
    assert(np.base_amount == base && np.quote_amount == notional && np.open_notional == notional);

    // Funding at the same rate is a no-op on the new positions.
    lemma_funded_collateral_in_range(u.collateral as int, u.positions@, mkt, cum, MAX_POSITIONS as int);
    assert forall|i: int| 0 <= i < ps2.len() && funding_applies(#[trigger] ps2[i], mkt) implies ps2[i].last_funding == cum by {
        if i != idx {
            assert(funding_applies(u.positions@[i], mkt));
        }
    }
    lemma_funding_noop(u2.collateral as int, ps2, mkt, cum, MAX_POSITIONS as int);

    // The new position is the only open one in the market.
    lemma_first_slot(ps2, SlotQuery::Open(mkt), 0);
    assert(slot_matches(ps2[idx], SlotQuery::Open(mkt)));
    assert(first_slot(ps2, SlotQuery::Open(mkt), 0) == Some(idx)) by {
        let k = first_slot(ps2, SlotQuery::Open(mkt), 0)->Some_0;
        if k != idx {
            assert(slot_matches(u.positions@[k], SlotQuery::Open(mkt)));
        }
    }
    let p = closing_position(u2, mkt, cum);
    assert(p == np);

    // The entry price is exactly the mark price.
    assert(base * mark == notional * 1_000_000) by {
        vstd::arithmetic::div_mod::lemma_fundamental_div_mod(base * mark, 1_000_000);
    }
    assert(entry_price_of(p) == mark) by {
        assert(p.quote_amount * (PRICE_PRECISION as int) == base * mark);
        assert(p.base_amount == base);
        vstd::arithmetic::div_mod::lemma_div_multiples_vanish(mark as int, base as int);
        assert((base * mark) / (base as int) == mark);
    }
    assert(base * mark <= 500_000_000_000_000_000);
    assert(as_i64_id(base) && as_i64_id(mark)) by {
        assert(base <= base * mark) by (nonlinear_arith)
            requires
                mark >= 1,
        ;
        assert(mark <= base * mark) by (nonlinear_arith)
            requires
                base >= 1,
        ;
    }
    assert(close_pnl(p, base, mark) == 0);
    // The released margin is the margin locked at open.
    assert(released_margin(p, base) == req) by {
        vstd::arithmetic::div_mod::lemma_div_multiples_vanish(notional, base as int);
        assert(notional * base == base * notional) by (nonlinear_arith);
    }
    assert(ps2.update(idx, empty_position()) =~= fp);
    let fc = funded_collateral(u.collateral as int, u.positions@, mkt, cum, MAX_POSITIONS as int);
    assert(close_net(p, base, mark) == req - fee);
    assert(req >= fee) by {
        vstd::arithmetic::div_mod::lemma_div_is_ordered_by_denominator(notional, lev as int, 10);
    }
    assert(collateral_after_close(u2.collateral as int, req - fee) == fc - 2 * fee);
}

/// A `u64` at most `i64::MAX` keeps its value as an `i64`.
spec fn as_i64_id(x: u64) -> bool {
    x <= i64::MAX && ((x as i64) as int) == x
}

/// A close realises PnL only on the amount it closes: all of the position
/// when the request is zero or covers it, else exactly the request; and the
/// PnL is that amount valued at the mark price less that amount valued at
/// the average entry price `quote * PRICE_PRECISION / base` (each product
/// reinterpreted as `i64` and divided by `PRICE_PRECISION` toward zero),
/// negated for a short.
pub proof fn law_close_pnl_on_amount_closed(p: Position, requested: u64, mark: u64)
    requires
        p.base_amount > 0,
    ensures
        ({
            let amount = close_amount(p.base_amount, requested);
            let entry = (((p.quote_amount * 1_000_000int) / (p.base_amount as int)) as u64);
            let at_mark = trunc_div(((amount as i64) as int) * ((mark as i64) as int), 1_000_000);
            let at_entry = trunc_div(((amount as i64) as int) * ((entry as i64) as int), 1_000_000);
            &&& (requested == 0 || requested >= p.base_amount ==> amount == p.base_amount)
            &&& (0 < requested < p.base_amount ==> amount == requested)
            &&& close_pnl(p, amount, mark) == (match p.direction {
                Direction::Long => at_mark - at_entry,
                Direction::Short => at_entry - at_mark,
            })
        }),
{
}

/// Opening on a side where the slot already holds a position adds to it:
/// base, quote and open notional each grow by exactly the new amount and
/// its notional `base * mark / PRICE_PRECISION` (narrowed to `u64`), so the
/// margin a later close releases covers every open.
pub proof fn law_open_accumulates_slot(
    p: Position,
    mkt: u8,
    dir: Direction,
    base: u64,
    mark: u64,
    lev: u64,
    cum: i64,
)
    requires
        p.base_amount + base <= u64::MAX,
        p.quote_amount + (((base * mark) / 1_000_000int) as u64) <= u64::MAX,
        p.open_notional + (((base * mark) / 1_000_000int) as u64) <= u64::MAX,
    ensures
        ({
            let n = ((base * mark) / 1_000_000int) as u64;
            let q = opened_position(p, mkt, dir, base, notional_of(base as int, mark as int), lev, cum);
            &&& q.base_amount == p.base_amount + base
            &&& q.quote_amount == p.quote_amount + n
            &&& q.open_notional == p.open_notional + n
            &&& q.market_index == mkt
            &&& q.direction == dir
            &&& q.leverage == lev
            &&& q.last_funding == cum
        }),
{
}

/// What an open charges: the margin locked is the notional divided by the
/// leverage (rounded down) and the fee is 0.07% of the notional (rounded
/// down), the notional being `base * mark / PRICE_PRECISION` narrowed to
/// `u64`.
pub proof fn law_open_charges(base: u64, mark: u64, lev: u64)
    requires
        lev >= 1,
    ensures
        ({
            let n = notional_of(base as int, mark as int);
            let req = n / (lev as int);
            let fee = taker_fee(n);
            &&& n == ((base * mark) / 1_000_000int) as u64
            &&& req * lev <= n < (req + 1) * lev
            &&& fee * 10_000 <= n * 7 < (fee + 1) * 10_000
        }),
{
    let n = notional_of(base as int, mark as int);
    vstd::arithmetic::div_mod::lemma_fundamental_div_mod(n, lev as int);
    vstd::arithmetic::div_mod::lemma_mod_pos_bound(n, lev as int);
    assert((n / (lev as int)) * lev <= n < (n / (lev as int) + 1) * lev) by (nonlinear_arith)
        requires
            n == lev * (n / (lev as int)) + n % (lev as int),
            0 <= n % (lev as int) < lev,
    ;
}

/// Funding owed is proportional to size and to the rate accrued since the
/// position last settled: a long pays `base * (rate - last) / 1e9` rounded
/// toward zero, a short receives the same, and nothing is owed when the
/// rate has not moved.
pub proof fn law_funding_proportional(p: Position, rate: i64)
    requires
        p.base_amount <= i64::MAX,
        funding_net(p, rate) is Some,
    ensures
        ({
            let owed = (p.base_amount as int) * (rate - p.last_funding);
            let net = funding_net(p, rate)->Some_0;
            let pay = if p.direction == Direction::Long { net } else { -net };
            &&& (owed >= 0 ==> 0 <= pay * 1_000_000_000 <= owed < (pay + 1) * 1_000_000_000)
            &&& (owed < 0 ==> (pay - 1) * 1_000_000_000 < owed <= pay * 1_000_000_000 <= 0)
            &&& (rate == p.last_funding ==> net == 0)
        }),
{
    let owed = (p.base_amount as int) * (rate - p.last_funding);
    assert(((p.base_amount as i64) as int) == p.base_amount);
    let pay = trunc_div(owed, 1_000_000_000);
    if owed >= 0 {
        vstd::arithmetic::div_mod::lemma_fundamental_div_mod(owed, 1_000_000_000);
        vstd::arithmetic::div_mod::lemma_mod_pos_bound(owed, 1_000_000_000);
        assert(pay == owed / 1_000_000_000);
        assert(0 <= pay * 1_000_000_000 <= owed < (pay + 1) * 1_000_000_000);
    } else {
        let q = (-owed) / 1_000_000_000;
        vstd::arithmetic::div_mod::lemma_fundamental_div_mod(-owed, 1_000_000_000);
        vstd::arithmetic::div_mod::lemma_mod_pos_bound(-owed, 1_000_000_000);
        assert(pay == -q);
        assert((pay - 1) * 1_000_000_000 < owed <= pay * 1_000_000_000 <= 0);
    }
    assert(funding_net(p, rate)->Some_0 == (if p.direction == Direction::Long { pay } else { -pay }));
    if rate == p.last_funding {
        assert(owed == 0) by (nonlinear_arith)
            requires
                owed == (p.base_amount as int) * (rate - p.last_funding),
                rate == p.last_funding,
        ;
    }
}

/// A close's fee is 0.07% of the notional of the amount closed, and the
/// margin it releases is that amount's share of the position's open
/// notional, divided by the leverage (at least one).
pub proof fn law_close_charges(p: Position, amount: u64, mark: u64)
    requires
        p.base_amount > 0,
        p.leverage >= 1,
        amount <= p.base_amount,
    ensures
        ({
            let cn = ((amount * mark) / 1_000_000int) as u64;
            let fee = taker_fee(notional_of(amount as int, mark as int));
            let rel = released_margin(p, amount);
            &&& fee * 10_000 <= cn * 7 < (fee + 1) * 10_000
            &&& rel == ((p.open_notional * amount) / (p.base_amount as int)) / (p.leverage as int)
            &&& rel <= p.open_notional
            &&& (amount == p.base_amount ==> rel == (p.open_notional as int) / (p.leverage as int))
        }),
{
    vstd::arithmetic::div_mod::lemma_div_multiples_vanish(p.open_notional as int, p.base_amount as int);
    assert(p.open_notional * amount <= p.open_notional * p.base_amount) by (nonlinear_arith)
        requires
            amount <= p.base_amount,
    ;
    assert(p.open_notional * p.base_amount == p.base_amount * p.open_notional) by (nonlinear_arith);
    vstd::arithmetic::div_mod::lemma_div_is_ordered(p.open_notional * amount, p.base_amount * p.open_notional, p.base_amount as int);
    vstd::arithmetic::div_mod::lemma_div_is_ordered_by_denominator(((p.open_notional * amount) / (p.base_amount as int)), 1, p.leverage as int);
}

/// Settling a close moves collateral by exactly the net, except that a
/// loss larger than the collateral stops at zero: the result is
/// `max(collateral + net, 0)`, and bad debt is reported exactly when the
/// loss exceeds the collateral.
pub proof fn law_close_settles_net(c: u64, net: int)
    ensures
        collateral_after_close(c as int, net) == (if c + net < 0 { 0 } else { c + net }),
        (net < 0 && -net > c) <==> c + net < 0,
{
}

} // verus!
