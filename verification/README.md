# lending_pool

Verified core of a lending pool: interest accrual, reserve share accounting, user positions,
pool status rules, emissions and auction quotes. Every function in `src/` carries a Verus
contract; the arithmetic goes through `soroban-fixed-point-math`, whose rounding the contracts
state.

Layout:

- `src/` — the library, checked by Verus. Module per concern: `interest`, `reserve`, `user`,
  `pool`, `actions` (request processing), `transfer` (moving positions between users),
  `status`, `config`, `emissions`, `auctions`, with `fixed_point` for the outside arithmetic.
- `tests/` — scenario tests of the library.
- `app/` — the ledger side: storage, token transfers and the oracle and backstop contracts,
  handing plain values to the library and storing what it returns.

Addresses are handles (`u64`) inside the library; `app/` keeps the mapping to ledger
addresses.
