# axionvera

The decision logic of the AxionVera protocol contracts, written in Verus and
verified: every public function states in its contract what it returns and
how it changes the state, for every input it accepts.

The library holds plain values (addresses as their 32 identifying bytes,
ledger time and sequence as arguments). What needs the ledger host —
checking authorizations, moving tokens, calling other contracts, storing
state and publishing events — is left to the caller: operations that move
tokens return the transfers to carry out, and a refused operation leaves the
state as it was.

## Layout

- `src/vault/` — the reward vault: deposits, withdrawals, reward
  distribution by a reward index, claims, locks and early exits with a
  penalty, protocol fees, side assets, and two kinds of delegation.
  `math.rs` holds the fixed-point reward arithmetic, `sums.rs` the sums the
  vault's invariant is stated with.
- `src/table.rs` — a verified finite map kept in insertion order, used for
  per-user state.
- `src/upgrades/` — upgrade compatibility checks and their report.
- `src/scheduler.rs`, `src/replay.rs`, `src/pipeline.rs` — task scheduling,
  event replay, and staged pipelines of contract calls.
- `src/features.rs`, `src/registry.rs`, `src/capabilities.rs`,
  `src/delegation.rs`, `src/security.rs`, `src/lifecycle.rs`,
  `src/context.rs` — feature flags, the module and contract registry,
  capability discovery, time-bounded delegation, access policies and the
  emergency switch, the contract lifecycle, and call contexts.
- `src/fees.rs`, `src/risk.rs` — protocol fees and deposit/withdrawal limits.
- `src/validator.rs`, `src/snapshots.rs`, `src/events_index.rs`,
  `src/state.rs` — cross-state consistency rules, periodic snapshots, and the
  bounded event index.
- `tests/` — tests on concrete values.
- `app/` — Soroban contracts that carry out the host side for the pause
  switch, the admin entry points, the pipeline runner and the task
  scheduler (its execution round is a step function of the library: the
  contract makes each call and reports whether it succeeded).
