# CarbonMint

A tokenized carbon-credit registry and marketplace for Stellar Soroban:
issuers mint batches of credits, list them for sale, sell them, holders
transfer them (one recipient or up to 50 at once) and permanently retire
them under retirement certificates.

## Layout

- `src/` — the verified library.
  - `math.rs`: checked and saturating `i128` / `u64` arithmetic.
  - `rules.rs`: each entrypoint's decision points, on plain values.
  - `entry.rs`: one decision per state-changing entrypoint, from the values
    it reads to the error it returns first or every value it writes; the
    registry and the Soroban contract both apply these decisions.
  - `ledger.rs`: the abstract registry state (`Ledger`) and the effect of
    every entrypoint on it.
  - `contract.rs`: `CarbonMintContract`, the whole registry state with one
    method per entrypoint, each proved to apply its `Ledger` effect or to
    refuse with the specified error and change nothing.
  - `store.rs`: the `(owner, batch)` balance table.
  - `laws.rs`, `accounting.rs`: properties across calls — the invariant,
    monotone minted total, exact transfers, authorization of every
    state-changing call, and credit accounting (every credit of a batch is
    held or retired).
- `tests/` — unit and scenario tests.
- `app/` — the Soroban contract: it reads ledger storage, asks for
  authorizations, calls the library's decision for the entrypoint, writes the
  values that come back and publishes the event. Where the authorization is
  asked for among the checks, and the storage I/O itself, are not verified.
