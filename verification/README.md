# wasmbet_contract_timeroulette

A dice contract for a CosmWasm chain. A player bets "uscrt" that a number
drawn from 0 to 58 will be over (or under) a prediction; a winning bet pays
the bet times a multiplier that shrinks with the odds and the house fee. The
house capital comes from a staking pool whose members own shares of it.

Layout:

- `src/` — the library, verified with Verus.
  - `types.rs`, `state.rs`, `msg.rs`: coins, environment, responses, errors,
    stored state and messages.
  - `spec.rs`: what each request does, as spec functions.
  - `contract.rs`: the requests (`try_ruler`, `try_capital_deposit`,
    `try_capital_withdraw`, `payout_amount`, ...) and the `init` / `handle` /
    `query` dispatch, each with its contract.
  - `guard.rs`: executable checks of the arithmetic bounds each request needs.
  - `hash.rs`: SHA-256 (through the `sha2` crate) and big-endian bytes.
  - `draw.rs`: the draw of a bet, ChaCha20 (through `rand_chacha`) keyed by
    SHA-256 of the house seed and the bet's entropy, modulo 59.
  - `laws.rs`: properties of the contract as a whole (capital accounting,
    refused requests change nothing, the staking pool stays within 100%,
    the draw ignores the bet itself).
- `app/` — the CosmWasm entry points: storage, JSON and the host's address
  canonicalisation.
- `tests/` — tests of the library.
