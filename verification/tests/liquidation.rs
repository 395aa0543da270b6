use neet_perp::neet_clearing_house::{deposit_collateral, initialize, open_position, ProtocolState, MAX_POSITIONS};
use neet_perp::neet_liquidation::{
    is_liquidatable, liquidate, BadDebt, Direction, LiqError, Liquidated, MarketState, Position, UserAccount,
};

const BOB: [u8; 32] = [4u8; 32];
const KEEPER: [u8; 32] = [5u8; 32];

fn market(mark: u64) -> MarketState {
    MarketState {
        market_index: 2,
        mark_price: mark,
        index_price: mark,
        mark_price_twap: mark,
        cumulative_funding_rate: 0,
        last_funding_ts: 0,
        twap_last_ts: 0,
        base_reserve: 0,
        quote_reserve: 0,
        k: 0,
        sqrt_k: 0,
        total_longs: 0,
        total_shorts: 0,
        bump: 0,
    }
}

fn empty_user() -> UserAccount {
    UserAccount {
        authority: BOB,
        collateral: 0,
        margin_used: 0,
        realised_pnl: 0,
        positions: [Position::default(); MAX_POSITIONS],
        bump: 0,
    }
}

/// Bob: a 10x long of one unit at $100 in market 2, with $5 of collateral
/// left after margin and fee.
fn bob_10x_long() -> UserAccount {
    let mut s = ProtocolState { admin: [0u8; 32], usdc_mint: [0u8; 32], paused: false, total_fees: 0, bump: 0 };
    initialize(&mut s, [1u8; 32], [2u8; 32], 1, 0);
    let mut u = empty_user();
    deposit_collateral(&s, &mut u, BOB, 15_070_000, 1).unwrap();
    open_position(&mut s, &mut u, &market(100_000_000), 2, Direction::Long, 1_000_000, 10, 2).unwrap();
    assert_eq!(u.collateral, 5_000_000);
    u
}

#[test]
fn health_view() {
    let u = bob_10x_long();
    assert!(!is_liquidatable(&u, &market(100_000_000), 2));
    assert!(is_liquidatable(&u, &market(96_000_000), 2));
    assert!(!is_liquidatable(&u, &market(96_000_000), 3));
}

#[test]
fn partial_liquidation() {
    let mut u = bob_10x_long();
    let (bad, ev) = liquidate(&mut u, &market(96_000_000), 2, KEEPER, 50).unwrap();
    assert_eq!(bad, None);
    assert_eq!(
        ev,
        Liquidated {
            user: BOB,
            keeper: KEEPER,
            market_index: 2,
            close_base: 194_400,
            closed_notional: 18_662_400,
            close_pnl: -777_600,
            liq_fee: 186_624,
            keeper_rw: 93_312,
            was_full: false,
            ts: 50,
        }
    );
    assert_eq!(u.collateral, 5_979_776);
    assert_eq!(u.margin_used, 8_056_000);
    assert_eq!(u.positions[0].base_amount, 805_600);
    assert_eq!(u.positions[0].open_notional, 81_337_600);
    assert_eq!(u.positions[0].quote_amount, 80_560_000);
}

#[test]
fn full_liquidation_with_bad_debt() {
    let mut u = empty_user();
    u.collateral = 1_000_000;
    u.margin_used = 1_000_000;
    u.positions[3] = Position {
        market_index: 2,
        direction: Direction::Long,
        base_amount: 1_000_000,
        quote_amount: 100_000_000,
        open_notional: 100_000_000,
        leverage: 100,
        last_funding: 0,
    };
    let (bad, ev) = liquidate(&mut u, &market(50_000_000), 2, KEEPER, 60).unwrap();
    assert_eq!(bad, Some(BadDebt { user: BOB, market: 2, deficit: 48_500_000, ts: 60 }));
    assert!(ev.was_full);
    assert_eq!(ev.close_base, 1_000_000);
    assert_eq!(ev.liq_fee, 500_000);
    assert_eq!(ev.keeper_rw, 250_000);
    assert_eq!(u.collateral, 0);
    assert_eq!(u.margin_used, 0);
    assert_eq!(u.positions[3], Position::default());
}

#[test]
fn short_liquidation_when_price_rises() {
    let mut u = empty_user();
    u.collateral = 1_000_000;
    u.positions[0] = Position {
        market_index: 2,
        direction: Direction::Short,
        base_amount: 1_000_000,
        quote_amount: 100_000_000,
        open_notional: 100_000_000,
        leverage: 10,
        last_funding: 0,
    };
    assert!(!is_liquidatable(&u, &market(98_000_000), 2));
    assert!(is_liquidatable(&u, &market(104_000_000), 2));
    assert!(liquidate(&mut u, &market(104_000_000), 2, KEEPER, 1).is_ok());
}

#[test]
fn liquidation_errors() {
    let mut u = bob_10x_long();
    let before = u;
    assert_eq!(liquidate(&mut u, &market(100_000_000), 2, KEEPER, 50), Err(LiqError::NotLiquidatable));
    assert_eq!(liquidate(&mut u, &market(96_000_000), 7, KEEPER, 50), Err(LiqError::NoPos));
    assert_eq!(u, before);
    let mut big = empty_user();
    big.positions[0] = Position {
        market_index: 2,
        direction: Direction::Long,
        base_amount: 1_000_000_000,
        quote_amount: 100_000_000_000_000_000,
        open_notional: 0,
        leverage: 1,
        last_funding: 0,
    };
    assert_eq!(liquidate(&mut big, &market(100_000_000_000_000), 2, KEEPER, 50), Err(LiqError::Overflow));
}


#[test]
fn position_without_spare_collateral_is_liquidatable_at_once() {
    // Equity counts free collateral only, so a position opened with exactly
    // margin plus fee deposited is below maintenance immediately.
    let mut s = ProtocolState { admin: [0u8; 32], usdc_mint: [0u8; 32], paused: false, total_fees: 0, bump: 0 };
    initialize(&mut s, [1u8; 32], [2u8; 32], 1, 0);
    let mut u = empty_user();
    deposit_collateral(&s, &mut u, BOB, 20_070_000, 1).unwrap();
    open_position(&mut s, &mut u, &market(100_000_000), 2, Direction::Long, 1_000_000, 5, 2).unwrap();
    assert_eq!(u.collateral, 0);
    assert!(is_liquidatable(&u, &market(100_000_000), 2));
}
