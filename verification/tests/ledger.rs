use octo_ledger::amount::Amount;
use octo_ledger::ledger::{InMemoryLedger, LedgerStore};
use octo_ledger::model::{Account, ClientId, Ledger};
use rust_decimal::Decimal;

fn account(client: u16, available: &str) -> Account {
    let mut a = Account::new(ClientId::new(client));
    a.available = Amount::new(available.parse::<Decimal>().unwrap());
    a.total = a.available;
    a
}

#[test]
fn in_memory_ledger_upsert_then_get_roundtrips() {
    let mut ledger = InMemoryLedger::default();
    assert_eq!(ledger.get(ClientId::new(1)), None);
    ledger.upsert(ClientId::new(1), account(1, "2.5"));
    assert_eq!(ledger.get(ClientId::new(1)), Some(account(1, "2.5")));
    ledger.upsert(ClientId::new(1), account(1, "3"));
    assert_eq!(ledger.get(ClientId::new(1)), Some(account(1, "3")));
}

#[test]
fn in_memory_ledger_lists_every_account_once() {
    let mut ledger = InMemoryLedger::default();
    for c in 0..10u16 {
        ledger.upsert(ClientId::new(c), account(c, "1"));
    }
    let mut clients: Vec<u16> = ledger.accounts().iter().map(|a| a.client.into_inner()).collect();
    clients.sort();
    assert_eq!(clients, (0..10u16).collect::<Vec<_>>());
}

#[test]
fn ledger_entry_opens_an_account_once() {
    let mut ledger = Ledger::new();
    ledger.entry(ClientId::new(4)).locked = true;
    assert!(ledger.entry(ClientId::new(4)).locked);
    assert_eq!(ledger.accounts().len(), 1);
    assert!(ledger.get_mut(ClientId::new(5)).is_none());
    ledger.get_mut(ClientId::new(4)).unwrap().locked = false;
    assert!(!ledger.accounts()[0].locked);
}
