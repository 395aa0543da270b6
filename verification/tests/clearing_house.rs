use neet_perp::neet_clearing_house::{
    apply_funding, close_position, deposit_collateral, find_pos, free_collateral, initialize, open_position,
    set_paused, settle_funding, slot_for, withdraw_collateral, BadDebt, Deposit, Direction, MarketState,
    NeetError, Position, PositionClosed, PositionOpened, ProtocolInit, ProtocolState, TradingPaused, UserAccount,
    Withdraw, MAX_POSITIONS,
};

const ALICE: [u8; 32] = [9u8; 32];

fn state() -> ProtocolState {
    let mut s = ProtocolState { admin: [0u8; 32], usdc_mint: [0u8; 32], paused: true, total_fees: 5, bump: 0 };
    initialize(&mut s, [1u8; 32], [2u8; 32], 255, 10);
    s
}

fn user() -> UserAccount {
    UserAccount {
        authority: [0u8; 32],
        collateral: 0,
        margin_used: 0,
        realised_pnl: 0,
        positions: [Position::default(); MAX_POSITIONS],
        bump: 0,
    }
}

fn market(mark: u64, cum: i64) -> MarketState {
    MarketState {
        market_index: 1,
        mark_price: mark,
        index_price: mark,
        mark_price_twap: mark,
        cumulative_funding_rate: cum,
        last_funding_ts: 0,
        twap_last_ts: 0,
        base_reserve: 0,
        quote_reserve: 0,
        k: 0,
        sqrt_k: 0,
        total_longs: 0,
        total_shorts: 0,
        bump: 0,
    }
}

/// Alice with $1000 deposited and a 5x long of one unit at $100 in market 1.
fn alice_long() -> (ProtocolState, UserAccount) {
    let mut s = state();
    let mut u = user();
    deposit_collateral(&s, &mut u, ALICE, 1_000_000_000, 20).unwrap();
    open_position(&mut s, &mut u, &market(100_000_000, 0), 1, Direction::Long, 1_000_000, 5, 30).unwrap();
    (s, u)
}

#[test]
fn initialize_and_pause() {
    let mut s = ProtocolState { admin: [0u8; 32], usdc_mint: [0u8; 32], paused: true, total_fees: 5, bump: 0 };
    let ev = initialize(&mut s, [1u8; 32], [2u8; 32], 255, 10);
    assert_eq!(ev, ProtocolInit { admin: [1u8; 32], ts: 10 });
    assert_eq!(s, ProtocolState { admin: [1u8; 32], usdc_mint: [2u8; 32], paused: false, total_fees: 0, bump: 255 });
    let ev = set_paused(&mut s, true, 11);
    assert_eq!(ev, TradingPaused { paused: true, ts: 11 });
    assert!(s.paused);
}

#[test]
fn deposit_and_withdraw() {
    let s = state();
    let mut u = user();
    let ev = deposit_collateral(&s, &mut u, ALICE, 500, 20).unwrap();
    assert_eq!(ev, Deposit { user: ALICE, amount: 500, ts: 20 });
    assert_eq!(u.collateral, 500);
    assert_eq!(u.authority, ALICE);
    let ev = withdraw_collateral(&s, &mut u, 200, 21).unwrap();
    assert_eq!(ev, Withdraw { user: ALICE, amount: 200, ts: 21 });
    assert_eq!(u.collateral, 300);
}

#[test]
fn deposit_errors() {
    let mut s = state();
    let mut u = user();
    assert_eq!(deposit_collateral(&s, &mut u, ALICE, 0, 1), Err(NeetError::InvalidAmount));
    u.collateral = u64::MAX;
    assert_eq!(deposit_collateral(&s, &mut u, ALICE, 1, 1), Err(NeetError::Overflow));
    assert_eq!(u.collateral, u64::MAX);
    set_paused(&mut s, true, 1);
    assert_eq!(deposit_collateral(&s, &mut u, ALICE, 1, 1), Err(NeetError::Paused));
}

#[test]
fn withdraw_limited_to_free_collateral() {
    let (mut s, mut u) = alice_long();
    assert_eq!(free_collateral(&u), 959_930_000);
    assert_eq!(withdraw_collateral(&s, &mut u, 959_930_001, 40), Err(NeetError::InsufficientCollateral));
    assert_eq!(withdraw_collateral(&s, &mut u, 0, 40), Err(NeetError::InvalidAmount));
    assert!(withdraw_collateral(&s, &mut u, 959_930_000, 40).is_ok());
    assert_eq!(u.collateral, 20_000_000);
    set_paused(&mut s, true, 41);
    assert_eq!(withdraw_collateral(&s, &mut u, 1, 42), Err(NeetError::Paused));
}

#[test]
fn free_collateral_saturates() {
    let mut u = user();
    u.collateral = 5;
    u.margin_used = 9;
    assert_eq!(free_collateral(&u), 0);
}

#[test]
fn open_position_locks_margin_and_charges_fee() {
    let mut s = state();
    let mut u = user();
    deposit_collateral(&s, &mut u, ALICE, 1_000_000_000, 20).unwrap();
    let ev = open_position(&mut s, &mut u, &market(100_000_000, 0), 1, Direction::Long, 1_000_000, 5, 30).unwrap();
    assert_eq!(
        ev,
        PositionOpened {
            user: ALICE,
            market: 1,
            direction: Direction::Long,
            base_amount: 1_000_000,
            notional: 100_000_000,
            entry_price: 100_000_000,
            leverage: 5,
            fee: 70_000,
            ts: 30,
        }
    );
    assert_eq!(u.collateral, 979_930_000);
    assert_eq!(u.margin_used, 20_000_000);
    assert_eq!(s.total_fees, 70_000);
    assert_eq!(
        u.positions[0],
        Position {
            market_index: 1,
            direction: Direction::Long,
            base_amount: 1_000_000,
            quote_amount: 100_000_000,
            open_notional: 100_000_000,
            leverage: 5,
            last_funding: 0,
        }
    );
}

#[test]
fn open_same_side_adds_to_slot_other_side_takes_new_slot() {
    let (mut s, mut u) = alice_long();
    let m = market(100_000_000, 0);
    open_position(&mut s, &mut u, &m, 1, Direction::Long, 1_000_000, 5, 31).unwrap();
    assert_eq!(u.positions[0].base_amount, 2_000_000);
    assert_eq!(u.positions[0].quote_amount, 200_000_000);
    open_position(&mut s, &mut u, &m, 1, Direction::Short, 1_000_000, 2, 32).unwrap();
    assert_eq!(u.positions[1].direction, Direction::Short);
    assert_eq!(u.positions[1].base_amount, 1_000_000);
    assert_eq!(slot_for(&u, 1, Direction::Short), Ok(1));
    assert_eq!(slot_for(&u, 1, Direction::Long), Ok(0));
    assert_eq!(slot_for(&u, 2, Direction::Long), Ok(2));
}

#[test]
fn open_position_errors() {
    let mut s = state();
    let mut u = user();
    deposit_collateral(&s, &mut u, ALICE, 1_000_000_000, 20).unwrap();
    let m = market(100_000_000, 0);
    assert_eq!(open_position(&mut s, &mut u, &m, 1, Direction::Long, 1_000_000, 0, 30), Err(NeetError::BadLeverage));
    assert_eq!(open_position(&mut s, &mut u, &m, 1, Direction::Long, 1_000_000, 11, 30), Err(NeetError::BadLeverage));
    assert_eq!(open_position(&mut s, &mut u, &m, 1, Direction::Long, 0, 5, 30), Err(NeetError::InvalidAmount));
    assert_eq!(open_position(&mut s, &mut u, &m, 1, Direction::Long, 99_999, 5, 30), Err(NeetError::BelowMin));
    assert!(open_position(&mut s.clone(), &mut u.clone(), &m, 1, Direction::Long, 100_000, 5, 30).is_ok());
    assert_eq!(open_position(&mut s, &mut u, &m, 1, Direction::Long, 5_000_000_001, 10, 30), Err(NeetError::AboveMax));
    assert_eq!(
        open_position(&mut s, &mut u, &m, 1, Direction::Long, 4_000_000_000, 1, 30),
        Err(NeetError::InsufficientCollateral)
    );
    assert_eq!(u.collateral, 1_000_000_000);
    assert_eq!(s.total_fees, 0);
    set_paused(&mut s, true, 31);
    assert_eq!(open_position(&mut s, &mut u, &m, 1, Direction::Long, 1_000_000, 5, 32), Err(NeetError::Paused));
}

#[test]
fn ninth_market_has_no_slot() {
    let mut s = state();
    let mut u = user();
    deposit_collateral(&s, &mut u, ALICE, 1_000_000_000, 20).unwrap();
    let m = market(100_000_000, 0);
    for i in 0..8u8 {
        open_position(&mut s, &mut u, &m, i, Direction::Long, 1_000_000, 10, 30).unwrap();
    }
    let before = u;
    assert_eq!(open_position(&mut s, &mut u, &m, 8, Direction::Long, 1_000_000, 10, 30), Err(NeetError::MaxPositions));
    assert_eq!(u, before);
    assert_eq!(slot_for(&u, 8, Direction::Long), Err(NeetError::MaxPositions));
    assert_eq!(find_pos(&u, 5), Some(5));
    assert_eq!(find_pos(&u, 9), None);
}

#[test]
fn close_full_position_with_profit() {
    let (mut s, mut u) = alice_long();
    let (bad, ev) = close_position(&mut s, &mut u, &market(110_000_000, 0), 1, 0, 40).unwrap();
    assert_eq!(bad, None);
    assert_eq!(
        ev,
        PositionClosed {
            user: ALICE,
            market: 1,
            close_amount: 1_000_000,
            exit_price: 110_000_000,
            pnl: 10_000_000,
            fee: 77_000,
            ts: 40,
        }
    );
    assert_eq!(u.collateral, 1_009_853_000);
    assert_eq!(u.margin_used, 0);
    assert_eq!(u.realised_pnl, 10_000_000);
    assert_eq!(u.positions[0], Position::default());
    assert_eq!(s.total_fees, 147_000);
}

#[test]
fn close_part_of_position() {
    let (mut s, mut u) = alice_long();
    let (bad, ev) = close_position(&mut s, &mut u, &market(100_000_000, 0), 1, 400_000, 40).unwrap();
    assert_eq!(bad, None);
    assert_eq!(ev.pnl, 0);
    assert_eq!(ev.fee, 28_000);
    assert_eq!(u.collateral, 979_930_000 + 7_972_000);
    assert_eq!(u.margin_used, 12_000_000);
    assert_eq!(u.positions[0].base_amount, 600_000);
    assert_eq!(u.positions[0].quote_amount, 60_000_000);
    assert_eq!(u.positions[0].open_notional, 60_000_000);
}

#[test]
fn close_short_with_loss() {
    let mut s = state();
    let mut u = user();
    deposit_collateral(&s, &mut u, ALICE, 1_000_000_000, 20).unwrap();
    open_position(&mut s, &mut u, &market(100_000_000, 0), 1, Direction::Short, 1_000_000, 5, 30).unwrap();
    let (_, ev) = close_position(&mut s, &mut u, &market(110_000_000, 0), 1, 0, 40).unwrap();
    assert_eq!(ev.pnl, -10_000_000);
    // 979_930_000 + 20_000_000 margin - 10_000_000 loss - 77_000 fee
    assert_eq!(u.collateral, 989_853_000);
    assert_eq!(u.realised_pnl, -10_000_000);
}

#[test]
fn close_beyond_collateral_reports_bad_debt() {
    let mut s = state();
    let mut u = user();
    deposit_collateral(&s, &mut u, ALICE, 20_070_000, 20).unwrap();
    open_position(&mut s, &mut u, &market(100_000_000, 0), 1, Direction::Long, 1_000_000, 5, 30).unwrap();
    assert_eq!(u.collateral, 0);
    let (bad, ev) = close_position(&mut s, &mut u, &market(50_000_000, 0), 1, 0, 40).unwrap();
    assert_eq!(bad, Some(BadDebt { user: ALICE, market: 1, ts: 40 }));
    assert_eq!(ev.pnl, -50_000_000);
    assert_eq!(u.collateral, 0);
    assert_eq!(u.margin_used, 0);
}

#[test]
fn close_errors() {
    let (mut s, mut u) = alice_long();
    let m = market(100_000_000, 0);
    assert_eq!(close_position(&mut s, &mut u, &m, 2, 0, 40), Err(NeetError::NoPosition));
    set_paused(&mut s, true, 41);
    assert_eq!(close_position(&mut s, &mut u, &m, 1, 0, 42), Err(NeetError::Paused));
}

#[test]
fn funding_long_pays_short_receives() {
    let (_, mut u) = alice_long();
    let c0 = u.collateral;
    apply_funding(&mut u, 1, 2_000_000_000).unwrap();
    assert_eq!(u.collateral, c0 - 2_000_000);
    assert_eq!(u.positions[0].last_funding, 2_000_000_000);
    let mut v = u;
    v.positions[0].direction = Direction::Short;
    v.positions[0].last_funding = 0;
    apply_funding(&mut v, 1, 2_000_000_000).unwrap();
    assert_eq!(v.collateral, c0);
}

#[test]
fn funding_settles_once() {
    let (_, mut u) = alice_long();
    settle_funding(&mut u, &market(100_000_000, 1_500_000_000), 1).unwrap();
    let after_first = u;
    settle_funding(&mut u, &market(100_000_000, 1_500_000_000), 1).unwrap();
    assert_eq!(u, after_first);
}

#[test]
fn funding_rounds_toward_zero_and_skips_other_markets() {
    let (_, mut u) = alice_long();
    let c0 = u.collateral;
    // 1e6 * 1_500 / 1e9 = 1.5 -> 1 ; -1.5 -> -1
    apply_funding(&mut u, 1, 1_500).unwrap();
    assert_eq!(u.collateral, c0 - 1);
    apply_funding(&mut u, 1, 0).unwrap();
    assert_eq!(u.collateral, c0);
    apply_funding(&mut u, 2, 9_000_000_000).unwrap();
    assert_eq!(u.collateral, c0);
    assert_eq!(u.positions[0].last_funding, 0);
}

#[test]
fn funding_overflow_leaves_account() {
    let (_, mut u) = alice_long();
    u.positions[0].last_funding = i64::MIN;
    let before = u;
    assert_eq!(apply_funding(&mut u, 1, i64::MAX), Err(NeetError::Overflow));
    assert_eq!(u, before);
}


#[test]
fn open_then_close_at_same_price_costs_two_fees() {
    let (mut s, mut u) = alice_long();
    close_position(&mut s, &mut u, &market(100_000_000, 0), 1, 0, 40).unwrap();
    assert_eq!(u.collateral, 1_000_000_000 - 2 * 70_000);
    assert_eq!(u.margin_used, 0);
    assert_eq!(u.realised_pnl, 0);
    assert_eq!(u.positions[0], Position::default());
    assert_eq!(s.total_fees, 140_000);
}

#[test]
fn notional_is_narrowed_to_u64() {
    // base * mark / PRICE_PRECISION is narrowed to u64 as computed, so a
    // position whose true notional exceeds u64::MAX is priced at the
    // wrapped value.
    let mut s = state();
    let mut u = user();
    deposit_collateral(&s, &mut u, ALICE, 1_000_000_000, 20).unwrap();
    let ev =
        open_position(&mut s, &mut u, &market(1_000_000_000_000, 0), 1, Direction::Long, 18_446_744_073_720, 1, 30)
            .unwrap();
    assert_eq!(ev.notional, 10_448_384);
}
