use octo_ledger::amount::Amount;
use octo_ledger::engine::run;
use octo_ledger::ledger::LedgerStore;
use octo_ledger::model::{ClientId, Entry, TxId, TxType};
use rust_decimal::Decimal;

fn amt(s: &str) -> Amount {
    Amount::new(s.parse::<Decimal>().unwrap())
}

fn deposit(client: u16, tx: u32, amount: &str) -> Entry {
    Entry {
        tx_type: TxType::Deposit,
        client: ClientId::new(client),
        tx: TxId::new(tx),
        amount: Some(amt(amount)),
    }
}

fn withdrawal(client: u16, tx: u32, amount: &str) -> Entry {
    Entry {
        tx_type: TxType::Withdrawal,
        client: ClientId::new(client),
        tx: TxId::new(tx),
        amount: Some(amt(amount)),
    }
}

#[test]
fn single_deposit_produces_matching_available_and_total() {
    let ledger = run(vec![deposit(1, 1, "1.5")]);

    let accounts = ledger.accounts();
    assert_eq!(accounts.len(), 1);
    let account = accounts[0];
    assert_eq!(account.available, amt("1.5"));
    assert_eq!(account.total, amt("1.5"));
    assert_eq!(account.held, amt("0"));
    assert!(!account.locked);
}

#[test]
fn two_deposits_for_same_client_sum_correctly() {
    let ledger = run(vec![deposit(1, 1, "1.5"), deposit(1, 2, "2.25")]);

    let accounts = ledger.accounts();
    assert_eq!(accounts.len(), 1);
    let account = accounts[0];
    assert_eq!(account.available, amt("3.75"));
    assert_eq!(account.total, amt("3.75"));
}

#[test]
fn deposits_across_two_clients_produce_independent_accounts() {
    let ledger = run(vec![deposit(1, 1, "1.0"), deposit(2, 2, "5.0")]);

    let accounts = ledger.accounts();
    let client1 = accounts
        .iter()
        .find(|a| a.client == ClientId::new(1))
        .expect("client 1 account should exist");
    let client2 = accounts
        .iter()
        .find(|a| a.client == ClientId::new(2))
        .expect("client 2 account should exist");

    assert_eq!(client1.available, amt("1.0"));
    assert_eq!(client2.available, amt("5.0"));
}

#[test]
fn deposit_followed_by_withdrawal_nets_out() {
    let ledger = run(vec![deposit(1, 1, "5.0"), withdrawal(1, 2, "1.5")]);

    let accounts = ledger.accounts();
    assert_eq!(accounts.len(), 1);
    let account = accounts[0];
    assert_eq!(account.available, amt("3.5"));
    assert_eq!(account.total, amt("3.5"));
    assert_eq!(account.held, amt("0"));
}
