//! Verified core of the NEET perpetual-futures protocol: the state
//! transitions of its seven programs (clearing house, virtual AMM, oracle
//! adapter, funding, liquidation, insurance fund and treasury), written as
//! functions from account state and plain inputs to new account state,
//! events and errors.

use vstd::prelude::*;

pub mod arith;
pub mod neet_amm;
pub mod neet_clearing_house;
pub mod neet_funding;
pub mod neet_insurance;
pub mod neet_liquidation;
pub mod neet_oracle_adapter;
pub mod neet_treasury;

verus! {

/// A 32-byte account address, as carried in account state and events.
pub type Pubkey = [u8; 32];

} // verus!
