# purchase_manager

The administrative core of a Soroban purchase-manager contract, written in
Verus: admin roles and their hand-over, the platform configuration, the
assets that purchases may be paid in, creator fee tiers, and the
cursor-based maintenance that keeps every one of those ledger entries alive.
Two stand-ins used when testing the contract (a material registry and a
token that records transfers) are part of the library too.

Layout:

- `src/storage.rs` — the contract state as the soroban host keeps it
  (persistent and instance entries, their time-to-live, the ledger info,
  published events, the authorizations of the invocation), described over
  spec functions, and the calls into `soroban_sdk` that read and change it.  These calls are the trusted part.
- `src/ttl.rs` — renewing entries to the network's maximum TTL.
- `src/index.rs` — maintenance indexes: the first time an address gets an
  entry it is marked and recorded in a numbered slot, once and for good, and
  maintenance pages through the slots with a cursor.  The laws about indexes
  and sweeps are proved here.
- `src/auth.rs` — admin roles, admin checks, admin transfer.
- `src/config.rs` — initialization and the platform configuration.
- `src/assets.rs`, `src/tiers.rs` — payment assets and creator tiers.
- `src/material.rs`, `src/registry.rs`, `src/asset.rs`, `src/error.rs` — the
  material types, the stand-in registry and token, and the error type.
- `tests/` — tests that run the library against the soroban test host.
- `app/` — the `#[contract]` entry points and the `#[contracttype]` copies of
  the library's types.
