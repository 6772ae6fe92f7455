use octo_ledger::amount::Amount;
use octo_ledger::model::{ClientId, DepositRecord, DisputeState, TxId};
use octo_ledger::store::{decode, encode, DepositStore, InMemoryDepositStore, LiveDepositStore};
use rust_decimal::Decimal;

fn record(client: u16, amount: &str) -> DepositRecord {
    record_with_state(client, amount, DisputeState::NeverDisputed)
}

fn record_with_state(client: u16, amount: &str, state: DisputeState) -> DepositRecord {
    DepositRecord {
        client: ClientId::new(client),
        amount: Amount::new(amount.parse::<Decimal>().unwrap()),
        state,
    }
}

#[test]
fn encode_then_decode_roundtrips_for_every_dispute_state_and_precise_amounts() {
    let records = [
        record_with_state(1, "5.0", DisputeState::NeverDisputed),
        record_with_state(2, "10.5", DisputeState::Disputed),
        record_with_state(3, "0.0001", DisputeState::Settled),
        record_with_state(4, "1.2345", DisputeState::NeverDisputed),
    ];

    for r in records {
        assert_eq!(decode(&encode(&r)), r);
    }
}

fn deposit_store_contract<S: DepositStore>(mut store: S) {
    let rec = record(1, "5.1234");
    store.insert(TxId::new(1), rec);
    assert_eq!(store.get(TxId::new(1)), Some(rec));

    assert_eq!(
        store.get(TxId::new(1)).unwrap().state,
        DisputeState::NeverDisputed
    );
    store.set_state(TxId::new(1), DisputeState::Disputed);
    assert_eq!(
        store.get(TxId::new(1)).unwrap().state,
        DisputeState::Disputed
    );
    store.set_state(TxId::new(1), DisputeState::Settled);
    assert_eq!(
        store.get(TxId::new(1)).unwrap().state,
        DisputeState::Settled
    );

    store.set_state(TxId::new(999), DisputeState::Disputed);
    assert_eq!(store.get(TxId::new(999)), None);

    assert_eq!(store.get(TxId::new(42)), None);
}

#[test]
fn in_memory_satisfies_contract() {
    deposit_store_contract(InMemoryDepositStore::default());
}

#[test]
fn live_satisfies_contract() {
    deposit_store_contract(LiveDepositStore::new().unwrap());
}

#[test]
fn live_get_on_brand_new_store_returns_none_without_panicking() {
    let store = LiveDepositStore::new().unwrap();
    assert_eq!(store.get(TxId::new(1)), None);
}

#[test]
fn live_store_holds_up_at_moderate_scale() {
    let mut store = LiveDepositStore::new().unwrap();
    let mut expected = std::collections::HashMap::new();

    for i in 0..5000u32 {
        let client = (i % 500) as u16;
        let amount = Decimal::new(i as i64 * 1234, 4);
        let state = match i % 3 {
            0 => DisputeState::NeverDisputed,
            1 => DisputeState::Disputed,
            _ => DisputeState::Settled,
        };
        let rec = record_with_state(client, &amount.to_string(), state);
        store.insert(TxId::new(i), rec);
        expected.insert(TxId::new(i), rec);
    }

    for (tx, rec) in expected {
        assert_eq!(store.get(tx), Some(rec));
    }
}

#[test]
fn live_and_in_memory_stores_answer_alike_after_the_same_calls() {
    let mut live = LiveDepositStore::new().unwrap();
    let mut memory = InMemoryDepositStore::default();
    for i in 0..300u32 {
        let tx = TxId::new(i % 97);
        match i % 4 {
            0 | 1 => {
                let amount = Decimal::new(i as i64 * 37 - 500, i % 5);
                let rec = record(
                    (i % 7) as u16,
                    &amount.to_string(),
                );
                live.insert(tx, rec);
                memory.insert(tx, rec);
            }
            2 => {
                live.set_state(tx, DisputeState::Disputed);
                memory.set_state(tx, DisputeState::Disputed);
            }
            _ => {
                live.set_state(TxId::new(i), DisputeState::Settled);
                memory.set_state(TxId::new(i), DisputeState::Settled);
            }
        }
        for t in 0..100u32 {
            let (a, b) = (live.get(TxId::new(t)), memory.get(TxId::new(t)));
            assert_eq!(a, b);
            if let (Some(a), Some(b)) = (a, b) {
                assert_eq!(a.amount.into_inner().to_string(), b.amount.into_inner().to_string());
            }
        }
    }
}
