# swapper

Swaps ETH and USDC through the Uniswap V2 router, with the decisions of the
swap verified by Verus.

- `src/` is the verified library: 256-bit words (`uint`), constant-product
  quotes and slippage floors with their laws (`amm`), addresses and the token
  order of a pair (`address`), balance formatting (`balances`, `wallet`), the
  swap plans and the USDC approval steps (`swapper`), and the command-line
  checks (`utils`).
- `app/` is the program: it reads the environment and the chain, sends the
  transactions, and converts between `alloy`'s types and the library's.
- `tests/` runs the library on concrete values.
