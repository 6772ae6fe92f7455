# octo_ledger

Replays a stream of client transactions (deposits, withdrawals, disputes,
resolves and chargebacks) into per-client balances, with the ledger logic
written in Verus and proved against its contracts.

## Layout

- `src/amount.rs` — `Amount`, the parts of a `rust_decimal::Decimal`; the
  decimal arithmetic, comparison and byte encoding are calls into
  rust_decimal, each stated by its contract.
- `src/model.rs` — client and transaction ids, transaction types, deposit
  records, entries, accounts and the in-place `Ledger`.
- `src/parser.rs`, `src/error.rs` — validation of raw rows (`Entry::try_from`).
- `src/store.rs` — the `DepositStore` trait, an in-memory store and the
  redb-backed `LiveDepositStore`, with the 19-byte record encoding.
- `src/ledger.rs` — the `LedgerStore` trait and `InMemoryLedger`.
- `src/engine.rs` — `step`, the meaning of one entry, and `apply_entry`,
  `try_apply_entry`, `run_with_stores`, `run` and their stopping variants
  `try_run_with_stores` and `try_run`, proved to follow it.
- `src/invariants.rs` — what holds of every step and run: locked accounts
  are inert, a deposit's dispute state only moves forward, ignored rows
  change nothing, an applied row changes only its client's account; and,
  over runs in which every sum is exact (rust_decimal does not round), total
  equals available plus held, and, when deposits are non-negative, no
  balance goes negative.
- `app/` — the command line tool: CSV reading and writing, error reporting.
- `tests/` — scenarios, the laws on concrete values, the store contract on
  both stores, a 50,000-row run.

## Usage

```sh
octo-ledger transactions.csv > accounts.csv
```
