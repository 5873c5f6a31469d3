# wallet_tracker

A Solana wallet tracker. A background worker reads the token balances and
recent transactions of each tracked wallet from an RPC node and stores them
in PostgreSQL; an HTTP API serves them.

- `src/` is the library, verified with Verus: reading amounts (`amount`),
  checking addresses and reading token accounts (`client`), decoding a
  confirmed transaction into the wallet's token transfers (`parser`), and the
  decisions of the worker (`worker`) and of the synchronisation of one wallet
  (`sync`), each from one event to the next. `external` holds
  the trusted contracts of the outside crates it calls (`rust_decimal`,
  `chrono`, `solana-pubkey`, `solana-signature`).
- `app/` is the service around it: HTTP routes, database queries, RPC
  requests, and the loops that perform what `worker::step` and
  `sync::sync_step` ask for and report back what happened.

`app/` calls the node through `solana-client`, `solana-sdk`,
`solana-transaction-status`, `solana-account-decoder` and `spl-token`. They
are not in Cargo.toml: with them the dependency tree grows to some 710
packages, too heavy to carry, so `app/` does not build without them. The library itself needs only `solana-pubkey` and
`solana-signature`, the crates `solana-sdk` takes `Pubkey` and `Signature`
from.
