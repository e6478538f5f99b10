# lattice

Verified core of a cross-chain stablecoin payment router (Ethereum, Base,
Arbitrum) that quotes Uniswap V3 swaps or direct transfers and tracks their
settlement.

- `src/` — the library, verified with Verus:
  - `text` — hex and decimal encodings, hex address decoding spec;
  - `address` — 20-byte addresses, parsing and printing;
  - `token` — supported tokens, decimals, approval rule, name lookup;
  - `chain` — chain table and chain selection for a request;
  - `amounts` — slippage minimum, gas limit, gas price, block windows;
  - `abi` — call data of `exactInputSingle` and ERC-20 `transfer`;
  - `quote` — request validation, quote construction, quote issuing;
  - `settlement` — the store of issued quotes and transfer settlement.
- `app/` — the HTTP server, RPC access, the settlement polling loop, the
  smoke tester and the single-chain prototype; floating-point pricing lives
  here.
- `tests/` — tests of the library.
