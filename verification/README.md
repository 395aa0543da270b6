# neet_perp

The state transitions of the NEET perpetual-futures protocol on Solana,
written in Verus and proved against their contracts.

- `src/` — the verified library, one module per on-chain program:
  `neet_clearing_house` (collateral, positions, fees, funding settlement),
  `neet_amm` (constant-product virtual AMM, TWAP), `neet_oracle_adapter`
  (index price selection and circuit breakers), `neet_funding` (hourly
  funding crank), `neet_liquidation` (partial liquidation),
  `neet_insurance` (insurance fund) and `neet_treasury` (fee routing and
  buyback); `arith` holds shared integer specifications. Each instruction
  is a function from account state and plain inputs (amounts, prices, the
  clock reading) to new account state, the events it logs, and its error.
  Each module ends with proof functions stating the laws the programs keep.
- `app/` — the Anchor side: account contexts and constraints, the clock,
  SPL token transfers and event logs, with Anchor copies of the account,
  event and error types converting to and from the library's.
- `tests/` — tests of the library on concrete values.
