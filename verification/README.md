# zeus_tokens

Token-list records for a multi-chain wallet, verified with Verus.

- `src/token_data.rs` — `TokenData`, one listed token, and its mathematical value `TokenRecord`.
- `src/wire.rs` — the binary layout of records and record lists as spec functions, with the
  proofs that reading back what was written gives the same records.
- `src/bincode_calls.rs` — the `bincode_next` calls the layout rests on (trusted, with their
  contracts).
- `src/codec.rs` — `TokenData::encode`, `TokenData::decode`, `encode_token_list`,
  `decode_token_list`, proved against `wire.rs`.
- `src/token_info.rs` — token descriptions (`info.json`), addresses parsed through
  `alloy_primitives`, ERC-20 tokens.
- `src/chain.rs` — supported chains, their ids, directories and RPC variables.
- `src/cleanup.rs` — which tokens a cleanup removes, and the counts it reports.
- `src/pools.rs` — which pools are synced to measure a token's liquidity, and how a base
  token is priced.
- `src/icons.rs` — logo resizing and icon encoding through `image`.
- `src/entry.rs` — the state machine deciding, step by step, whether a token directory
  yields a listed token.
- `app/` — the command-line driver: files, network, tasks and floating-point valuation.
