use octo_ledger::amount::Amount;
use octo_ledger::engine::{apply_entry, can_apply, try_apply_entry};
use octo_ledger::ledger::{InMemoryLedger, LedgerStore};
use octo_ledger::model::{Account, ClientId, DepositRecord, DisputeState, Entry, TxId, TxType};
use octo_ledger::store::{encode, InMemoryDepositStore};
use rust_decimal::Decimal;

fn amt(s: &str) -> Amount {
    Amount::new(s.parse::<Decimal>().unwrap())
}

#[test]
fn amount_keeps_the_decimal_it_wraps() {
    for text in ["0", "1.5", "-0.50", "2.0000", "123456789.1234"] {
        assert_eq!(amt(text).into_inner().to_string(), text);
    }
}

#[test]
fn add_and_sub_compute_the_decimal_sum_and_difference() {
    assert_eq!(amt("1.5").add(amt("2.25")).into_inner().to_string(), "3.75");
    assert_eq!(amt("5.0").sub(amt("1.5")).into_inner().to_string(), "3.5");
    assert_eq!(amt("0").add(amt("2")).into_inner().to_string(), "2");
    assert_eq!(amt("1").sub(amt("2.5")).into_inner().to_string(), "-1.5");
}

#[test]
fn equality_compares_values_not_scales() {
    assert_eq!(amt("1.50"), amt("1.5"));
    assert_eq!(amt("0"), amt("0.0000"));
    assert_ne!(amt("1.5"), amt("1.51"));
}

#[test]
fn a_sum_the_decimal_type_rounds_is_still_applied() {
    let mut deposits = InMemoryDepositStore::new();
    let mut ledger = InMemoryLedger::new();
    let first = Entry {
        tx_type: TxType::Deposit,
        client: ClientId::new(1),
        tx: TxId::new(1),
        amount: Some(amt("100000000000")),
    };
    let tiny = Entry {
        tx: TxId::new(2),
        amount: Some(amt("0.0000000000000000000000000001")),
        ..first
    };
    assert!(try_apply_entry(&mut deposits, &mut ledger, &first));
    assert!(can_apply(&deposits, &ledger, &tiny));
    assert!(try_apply_entry(&mut deposits, &mut ledger, &tiny));
    let account = ledger.get(ClientId::new(1)).unwrap();
    assert_eq!(
        account.available.into_inner(),
        amt("100000000000").into_inner() + amt("0.0000000000000000000000000001").into_inner()
    );
}

#[test]
fn encode_writes_the_serialized_decimal() {
    let record = DepositRecord {
        client: ClientId::new(0x1234),
        amount: amt("-10.5"),
        state: DisputeState::Disputed,
    };
    let bytes = encode(&record);
    assert_eq!(bytes[0], 0x34);
    assert_eq!(bytes[1], 0x12);
    assert_eq!(&bytes[2..18], &amt("-10.5").into_inner().serialize()[..]);
    assert_eq!(bytes[18], 1);
}

#[test]
fn can_apply_refuses_a_deposit_whose_sum_overflows() {
    let mut deposits = InMemoryDepositStore::new();
    let mut ledger = InMemoryLedger::new();
    let big = Entry {
        tx_type: TxType::Deposit,
        client: ClientId::new(1),
        tx: TxId::new(1),
        amount: Some(Amount::new(Decimal::MAX)),
    };
    assert!(can_apply(&deposits, &ledger, &big));
    apply_entry(&mut deposits, &mut ledger, &big);
    let again = Entry { tx: TxId::new(2), ..big };
    assert!(!can_apply(&deposits, &ledger, &again));
    let small = Entry {
        tx: TxId::new(3),
        amount: Some(amt("-1")),
        ..big
    };
    assert!(can_apply(&deposits, &ledger, &small));
}

#[test]
fn fresh_account_is_zero_and_unlocked() {
    let account = Account::new(ClientId::new(9));
    assert_eq!(account.client, ClientId::new(9));
    assert_eq!(account.available.into_inner().to_string(), "0");
    assert_eq!(account.held, amt("0"));
    assert_eq!(account.total, amt("0"));
    assert!(!account.locked);
    let ledger = InMemoryLedger::new();
    assert_eq!(ledger.get(ClientId::new(9)), None);
}

#[test]
fn try_new_accepts_exactly_the_parts_of_a_decimal() {
    let a = Amount::try_new(true, 105, 2).unwrap();
    assert_eq!(a.into_inner().to_string(), "-1.05");
    assert!(Amount::try_new(false, 1u128 << 96, 0).is_none());
    assert!(Amount::try_new(false, 1, 29).is_none());
    let max = Amount::try_new(false, (1u128 << 96) - 1, 28).unwrap();
    assert_eq!(max.into_inner(), Decimal::from_i128_with_scale(((1u128 << 96) - 1) as i128, 28));
}
