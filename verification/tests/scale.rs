//! A large generated run (50,000 rows over many clients with interleaved
//! disputes) checked against the balance rule and two hand-computed clients.

use octo_ledger::amount::Amount;
use octo_ledger::engine::run;
use octo_ledger::ledger::LedgerStore;
use octo_ledger::model::{ClientId, Entry, TxId, TxType};
use rust_decimal::Decimal;
use std::collections::VecDeque;

const SCALE_BULK_CLIENTS: u16 = 25;
const SCALE_TOTAL_ROWS: usize = 50_000;
const CONTROL_CLIENT_A: u16 = 9001;
const CONTROL_CLIENT_B: u16 = 9002;

fn format_cents(cents: i64) -> String {
    format!("{}.{:02}", cents / 100, cents % 100)
}

fn push_row(out: &mut Vec<Entry>, tx_type: TxType, client: u16, tx: u32, amount: Option<&str>) {
    out.push(Entry {
        tx_type,
        client: ClientId::new(client),
        tx: TxId::new(tx),
        amount: amount.map(|a| Amount::new(a.parse::<Decimal>().unwrap())),
    });
}

#[derive(Default)]
struct BulkClientState {
    available_cents: i64,
    locked: bool,
    open_deposits: VecDeque<(u32, i64)>,
    disputed_deposits: VecDeque<(u32, i64)>,
}

fn emit_deposit(
    out: &mut Vec<Entry>,
    next_tx: &mut u32,
    state: &mut BulkClientState,
    client_id: u16,
    amount_cents: i64,
) {
    let tx = *next_tx;
    *next_tx += 1;
    push_row(
        out,
        TxType::Deposit,
        client_id,
        tx,
        Some(&format_cents(amount_cents)),
    );
    state.available_cents += amount_cents;
    state.open_deposits.push_back((tx, amount_cents));
    if state.open_deposits.len() > 40 {
        state.open_deposits.pop_front();
    }
}

fn fallback_deposit(
    out: &mut Vec<Entry>,
    next_tx: &mut u32,
    state: &mut BulkClientState,
    client_id: u16,
    i: usize,
) {
    let amount_cents = 100 + (i as i64 % 500);
    emit_deposit(out, next_tx, state, client_id, amount_cents);
}

fn build_scale_entries() -> Vec<Entry> {
    let mut out = Vec::with_capacity(SCALE_TOTAL_ROWS);
    let mut next_tx: u32 = 1;

    let a_dep1 = next_tx;
    next_tx += 1;
    push_row(&mut out, TxType::Deposit, CONTROL_CLIENT_A, a_dep1, Some("100.00"));
    let a_dep2 = next_tx;
    next_tx += 1;
    push_row(&mut out, TxType::Deposit, CONTROL_CLIENT_A, a_dep2, Some("50.00"));
    push_row(&mut out, TxType::Dispute, CONTROL_CLIENT_A, a_dep1, None);
    push_row(&mut out, TxType::Resolve, CONTROL_CLIENT_A, a_dep1, None);
    let a_wd1 = next_tx;
    next_tx += 1;
    push_row(&mut out, TxType::Withdrawal, CONTROL_CLIENT_A, a_wd1, Some("30.00"));

    let b_dep1 = next_tx;
    next_tx += 1;
    push_row(&mut out, TxType::Deposit, CONTROL_CLIENT_B, b_dep1, Some("200.00"));
    push_row(&mut out, TxType::Dispute, CONTROL_CLIENT_B, b_dep1, None);
    push_row(&mut out, TxType::Chargeback, CONTROL_CLIENT_B, b_dep1, None);
    let b_dep2 = next_tx;
    next_tx += 1;
    push_row(&mut out, TxType::Deposit, CONTROL_CLIENT_B, b_dep2, Some("999.00"));

    let control_rows = 5 + 4;
    let bulk_rows = SCALE_TOTAL_ROWS - control_rows;

    let mut states: Vec<BulkClientState> = (0..SCALE_BULK_CLIENTS)
        .map(|_| BulkClientState::default())
        .collect();

    for i in 0..bulk_rows {
        let client_idx = i % SCALE_BULK_CLIENTS as usize;
        let client_id = client_idx as u16 + 1;
        let bucket = i % 10;
        let state = &mut states[client_idx];

        match bucket {
            0..=4 => {
                let amount_cents = 100 + ((i as i64 * 37 + client_idx as i64 * 13) % 5000);
                emit_deposit(&mut out, &mut next_tx, state, client_id, amount_cents);
            }
            5..=6 => {
                let raw = 50 + ((i as i64 * 13) % 2000);
                let amount_cents = raw.min(state.available_cents);
                if !state.locked && amount_cents > 0 {
                    let tx = next_tx;
                    next_tx += 1;
                    push_row(
                        &mut out,
                        TxType::Withdrawal,
                        client_id,
                        tx,
                        Some(&format_cents(amount_cents)),
                    );
                    state.available_cents -= amount_cents;
                } else {
                    fallback_deposit(&mut out, &mut next_tx, state, client_id, i);
                }
            }
            7 => {
                let candidate = state.open_deposits.front().copied();
                match candidate {
                    Some((tx, amt)) if !state.locked && amt <= state.available_cents => {
                        state.open_deposits.pop_front();
                        push_row(&mut out, TxType::Dispute, client_id, tx, None);
                        state.available_cents -= amt;
                        state.disputed_deposits.push_back((tx, amt));
                    }
                    _ => {
                        fallback_deposit(&mut out, &mut next_tx, state, client_id, i);
                    }
                }
            }
            8 => {
                if !state.locked {
                    if let Some((tx, amt)) = state.disputed_deposits.pop_front() {
                        push_row(&mut out, TxType::Resolve, client_id, tx, None);
                        state.available_cents += amt;
                    } else {
                        fallback_deposit(&mut out, &mut next_tx, state, client_id, i);
                    }
                } else {
                    fallback_deposit(&mut out, &mut next_tx, state, client_id, i);
                }
            }
            9 => {
                if !state.locked {
                    if let Some((tx, _amt)) = state.disputed_deposits.pop_front() {
                        push_row(&mut out, TxType::Chargeback, client_id, tx, None);
                        state.locked = true;
                    } else {
                        fallback_deposit(&mut out, &mut next_tx, state, client_id, i);
                    }
                } else {
                    fallback_deposit(&mut out, &mut next_tx, state, client_id, i);
                }
            }
            _ => unreachable!("i % 10 is always in 0..=9"),
        }
    }

    out
}

fn dec(s: &str) -> Decimal {
    s.parse().unwrap()
}

#[test]
fn scale_test_50k_rows_preserve_available_plus_held_invariant() {
    let entries = build_scale_entries();
    assert_eq!(entries.len(), SCALE_TOTAL_ROWS);

    let ledger = run(entries);
    let accounts = ledger.accounts();

    assert!(
        accounts.len() >= SCALE_BULK_CLIENTS as usize,
        "expected at least {} bulk client accounts, got {}",
        SCALE_BULK_CLIENTS,
        accounts.len()
    );

    for account in &accounts {
        let available = account.available.into_inner();
        let held = account.held.into_inner();
        let total = account.total.into_inner();
        assert_eq!(
            available + held,
            total,
            "invariant available + held == total violated for client {}",
            account.client.into_inner()
        );
        assert!(available >= Decimal::ZERO && held >= Decimal::ZERO && total >= Decimal::ZERO);
    }

    let a = accounts
        .iter()
        .find(|a| a.client.into_inner() == CONTROL_CLIENT_A)
        .unwrap();
    assert_eq!(a.available.into_inner(), dec("120.00"));
    assert_eq!(a.held.into_inner(), dec("0"));
    assert_eq!(a.total.into_inner(), dec("120.00"));
    assert!(!a.locked);

    let b = accounts
        .iter()
        .find(|a| a.client.into_inner() == CONTROL_CLIENT_B)
        .unwrap();
    assert_eq!(b.available.into_inner(), dec("0"));
    assert_eq!(b.held.into_inner(), dec("0"));
    assert_eq!(b.total.into_inner(), dec("0"));
    assert!(b.locked);
}
