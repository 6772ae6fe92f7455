//! End-to-end scenarios: rows of each kind replayed through the engine, the
//! resulting balances read back as the printed decimals.

use octo_ledger::amount::Amount;
use octo_ledger::engine::{run, run_with_stores};
use octo_ledger::ledger::{InMemoryLedger, LedgerStore};
use octo_ledger::model::{Account, ClientId, Entry, TxId, TxType};
use octo_ledger::store::LiveDepositStore;
use rust_decimal::Decimal;
use std::collections::HashMap;

type Row = (String, String, String, String);

fn entry(tx_type: TxType, client: u16, tx: u32, amount: Option<&str>) -> Entry {
    Entry {
        tx_type,
        client: ClientId::new(client),
        tx: TxId::new(tx),
        amount: amount.map(|a| Amount::new(a.parse::<Decimal>().unwrap())),
    }
}

fn deposit(client: u16, tx: u32, amount: &str) -> Entry {
    entry(TxType::Deposit, client, tx, Some(amount))
}

fn withdrawal(client: u16, tx: u32, amount: &str) -> Entry {
    entry(TxType::Withdrawal, client, tx, Some(amount))
}

fn dispute(client: u16, tx: u32) -> Entry {
    entry(TxType::Dispute, client, tx, None)
}

fn resolve(client: u16, tx: u32) -> Entry {
    entry(TxType::Resolve, client, tx, None)
}

fn chargeback(client: u16, tx: u32) -> Entry {
    entry(TxType::Chargeback, client, tx, None)
}

fn rows_of(accounts: Vec<Account>) -> HashMap<String, Row> {
    accounts
        .into_iter()
        .map(|a| {
            (
                a.client.into_inner().to_string(),
                (
                    a.available.into_inner().to_string(),
                    a.held.into_inner().to_string(),
                    a.total.into_inner().to_string(),
                    a.locked.to_string(),
                ),
            )
        })
        .collect()
}

fn rows(entries: Vec<Entry>) -> HashMap<String, Row> {
    rows_of(run(entries).accounts())
}

fn get_row<'a>(rows: &'a HashMap<String, Row>, client: &str) -> &'a Row {
    rows.get(client)
        .unwrap_or_else(|| panic!("expected a row for client {client}, got rows: {rows:?}"))
}

fn assert_balance(
    rows: &HashMap<String, Row>,
    client: &str,
    available: &str,
    held: &str,
    total: &str,
    locked: &str,
) {
    let row = get_row(rows, client);
    assert_eq!(row.0, available, "client {client} available");
    assert_eq!(row.1, held, "client {client} held");
    assert_eq!(row.2, total, "client {client} total");
    assert_eq!(row.3, locked, "client {client} locked");
}

#[test]
fn happy_path_produces_expected_balances() {
    let rows = rows(vec![
        deposit(1, 1, "1.0"),
        deposit(2, 2, "2"),
        deposit(1, 3, "2.0"),
        withdrawal(1, 4, "1.5"),
        withdrawal(2, 5, "3"),
    ]);

    assert_eq!(
        rows.len(),
        2,
        "expected exactly 2 client rows, got {:?}",
        rows
    );
    assert_balance(&rows, "1", "1.5", "0", "1.5", "false");
    assert_balance(&rows, "2", "2", "0", "2", "false");
}

#[test]
fn dispute_places_funds_on_hold_for_client_1() {
    let rows = rows(vec![deposit(1, 1, "5"), dispute(1, 1)]);
    assert_balance(&rows, "1", "0", "5", "5", "false");
}

#[test]
fn resolve_returns_disputed_funds_for_client_1() {
    let rows = rows(vec![deposit(1, 1, "5"), dispute(1, 1), resolve(1, 1)]);
    assert_balance(&rows, "1", "5", "0", "5", "false");
}

#[test]
fn chargeback_zeroes_and_locks_client_1() {
    let rows = rows(vec![deposit(1, 1, "5"), dispute(1, 1), chargeback(1, 1)]);
    assert_balance(&rows, "1", "0", "0", "0", "true");
}

fn edge_case_entries() -> Vec<Entry> {
    vec![
        // 10: a resolve of an undisputed deposit is ignored; 11 disputes 10's
        // deposit, which is not its own.
        deposit(10, 100, "5"),
        resolve(10, 100),
        dispute(11, 100),
        // 20: a second dispute of the same deposit is ignored.
        deposit(20, 200, "5"),
        dispute(20, 200),
        dispute(20, 200),
        // 30: a resolved deposit cannot be disputed again.
        deposit(30, 300, "5"),
        dispute(30, 300),
        resolve(30, 300),
        dispute(30, 300),
        // 40: a withdrawal's transaction cannot be disputed.
        deposit(40, 400, "10"),
        withdrawal(40, 401, "3"),
        dispute(40, 401),
        // 50: after a chargeback the account ignores everything.
        deposit(50, 500, "5"),
        dispute(50, 500),
        chargeback(50, 500),
        deposit(50, 501, "9"),
        withdrawal(50, 502, "1"),
        // 60: a dispute the available funds cannot cover is dropped.
        deposit(60, 600, "5"),
        withdrawal(60, 601, "5"),
        dispute(60, 600),
        // a withdrawal for an unknown client opens no account.
        withdrawal(70, 700, "1"),
    ]
}

#[test]
fn edge_cases_prove_each_ignore_path_had_no_effect() {
    let rows = rows(edge_case_entries());

    assert_balance(&rows, "10", "5", "0", "5", "false");
    assert!(
        !rows.contains_key("11"),
        "client 11 should have no row since its only mention is a mismatched dispute: {rows:?}"
    );

    assert_balance(&rows, "20", "0", "5", "5", "false");
    assert_balance(&rows, "30", "5", "0", "5", "false");
    assert_balance(&rows, "40", "7", "0", "7", "false");
    assert_balance(&rows, "50", "0", "0", "0", "true");
    assert_balance(&rows, "60", "0", "0", "0", "false");

    assert_eq!(
        rows.len(),
        6,
        "expected exactly 6 client rows (10, 20, 30, 40, 50, 60), got {rows:?}"
    );
}

#[test]
fn disk_backed_deposits_give_the_same_balances() {
    let entries = edge_case_entries();
    let in_memory = rows(entries.clone());
    let ledger = run_with_stores(
        entries,
        LiveDepositStore::new().unwrap(),
        InMemoryLedger::default(),
    );
    assert_eq!(rows_of(ledger.accounts()), in_memory);
}

#[test]
fn a_second_dispute_after_short_funds_succeeds() {
    let rows = rows(vec![
        deposit(1, 1, "5"),
        withdrawal(1, 2, "5"),
        dispute(1, 1),
        deposit(1, 3, "5"),
        dispute(1, 1),
    ]);
    assert_balance(&rows, "1", "0", "5", "5", "false");
}

#[test]
fn locked_account_ignores_dispute_resolve_and_chargeback() {
    let rows = rows(vec![
        deposit(1, 1, "5"),
        deposit(1, 2, "3"),
        dispute(1, 1),
        dispute(1, 2),
        chargeback(1, 1),
        resolve(1, 2),
        chargeback(1, 2),
        dispute(1, 1),
    ]);
    assert_balance(&rows, "1", "0", "3", "3", "true");
}
