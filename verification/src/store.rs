use crate::amount::Amount;
use crate::model::{ClientId, DepositRecord, DisputeState, TxId};
use std::collections::HashMap;
use vstd::prelude::*;

verus! {

broadcast use vstd::std_specs::hash::group_hash_axioms;

/// The record of `m` at `tx` with its dispute state replaced, or `m`
/// unchanged when it holds no record at `tx`.
pub open spec fn with_state(m: Map<u32, DepositRecord>, tx: u32, state: DisputeState) -> Map<
    u32,
    DepositRecord,
> {
    if m.contains_key(tx) {
        m.insert(tx, DepositRecord { state, ..m[tx] })
    } else {
        m
    }
}

/// A read gives back what the last write wrote: after `insert(tx, record)`,
/// `get(tx)` gives `record`, and after `set_state(tx, state)` on a recorded
/// deposit, `get(tx)` gives it with `state`; other transactions are untouched,
/// and `set_state` on a transaction with no deposit changes nothing.
pub proof fn lemma_read_after_write(
    m: Map<u32, DepositRecord>,
    tx: u32,
    record: DepositRecord,
    state: DisputeState,
    other: u32,
)
    requires
        other != tx,
    ensures
        m.insert(tx, record).get(tx) == Some(record),
        m.insert(tx, record).get(other) == m.get(other),
        m.contains_key(tx) ==> with_state(m, tx, state).get(tx) == Some(
            DepositRecord { state, ..m[tx] },
        ),
        !m.contains_key(tx) ==> with_state(m, tx, state) == m,
        with_state(m, tx, state).get(other) == m.get(other),
{
}

/// Deposits, looked up by transaction id.
pub trait DepositStore {
    /// The deposits held, by transaction id.
    spec fn deposit_map(&self) -> Map<u32, DepositRecord>;

    /// What the store keeps true of its own representation.
    spec fn inv(&self) -> bool;

    /// Records a deposit under `tx`, replacing any record already there.
    fn insert(&mut self, tx: TxId, record: DepositRecord)
        requires
            old(self).inv(),
        ensures
            final(self).inv(),
            final(self).deposit_map() == old(self).deposit_map().insert(tx@, record),
    ;

    /// The deposit recorded under `tx`, if any.
    fn get(&self, tx: TxId) -> (r: Option<DepositRecord>)
        requires
            self.inv(),
        ensures
            r == self.deposit_map().get(tx@),
    ;

    /// Moves the deposit under `tx` to `state`; does nothing when there is none.
    fn set_state(&mut self, tx: TxId, state: DisputeState)
        requires
            old(self).inv(),
        ensures
            final(self).inv(),
            final(self).deposit_map() == with_state(old(self).deposit_map(), tx@, state),
    ;
}

/// A deposit store held in memory.
#[derive(Clone, Debug)]
pub struct InMemoryDepositStore {
    records: HashMap<u32, DepositRecord>,
}

impl InMemoryDepositStore {
    /// An empty store.
    pub fn new() -> (r: InMemoryDepositStore)
        ensures
            r.deposit_map() == Map::<u32, DepositRecord>::empty(),
            r.inv(),
    {
        InMemoryDepositStore { records: HashMap::new() }
    }
}

impl Default for InMemoryDepositStore {
    fn default() -> (r: InMemoryDepositStore)
        ensures
            r.deposit_map() == Map::<u32, DepositRecord>::empty(),
            r.inv(),
    {
        InMemoryDepositStore::new()
    }
}

impl DepositStore for InMemoryDepositStore {
    closed spec fn deposit_map(&self) -> Map<u32, DepositRecord> {
        self.records@
    }

    closed spec fn inv(&self) -> bool {
        true
    }

    fn insert(&mut self, tx: TxId, record: DepositRecord) {
        self.records.insert(tx.into_inner(), record);
    }

    fn get(&self, tx: TxId) -> (r: Option<DepositRecord>) {
        match self.records.get(&tx.into_inner()) {
            Some(record) => Some(*record),
            None => None,
        }
    }

    fn set_state(&mut self, tx: TxId, state: DisputeState) {
        let key = tx.into_inner();
        let existing = match self.records.get(&key) {
            Some(record) => Some(*record),
            None => None,
        };
        if let Some(record) = existing {
            self.records.insert(key, DepositRecord { state, ..record });
        }
    }
}

/// The byte that stands for a dispute state.
pub open spec fn state_byte(state: DisputeState) -> u8 {
    match state {
        DisputeState::NeverDisputed => 0,
        DisputeState::Disputed => 1,
        DisputeState::Settled => 2,
    }
}

/// The dispute state a byte stands for (`0`, `1` or `2`).
pub open spec fn state_of_byte(b: u8) -> DisputeState {
    if b == 0 {
        DisputeState::NeverDisputed
    } else if b == 1 {
        DisputeState::Disputed
    } else {
        DisputeState::Settled
    }
}

/// The 19 bytes that store a deposit: the client (2 bytes, little-endian),
/// the amount as `Decimal::serialize` writes it (16 bytes), the dispute state
/// (1 byte).
pub open spec fn encoded(record: DepositRecord) -> Seq<u8> {
    let c = record.client@;
    seq![(c & 0xff) as u8, (c >> 8) as u8] + record.amount.serialized() + seq![
        state_byte(record.state),
    ]
}

/// The byte strings that `encoded` can produce: 19 bytes, a state byte of at
/// most 2 and an amount scale of at most 28.
pub open spec fn valid_encoding(b: Seq<u8>) -> bool {
    &&& b.len() == 19
    &&& b[18] <= 2
    &&& b[4] & 0x1fu8 <= 28
}

/// The deposit that 19 bytes stand for.
pub open spec fn decoded(b: Seq<u8>) -> DepositRecord {
    DepositRecord {
        client: ClientId((b[0] as u16) | ((b[1] as u16) << 8)),
        amount: Amount::deserialized(b.subrange(2, 18)),
        state: state_of_byte(b[18]),
    }
}

/// Decoding an encoded deposit gives the deposit back.
pub proof fn lemma_decode_encode(record: DepositRecord)
    requires
        record.amount.wf(),
    ensures
        valid_encoding(encoded(record)),
        decoded(encoded(record)) == record,
{
    let c = record.client@;
    let b = encoded(record);
    record.amount.lemma_serialized_roundtrip();
    assert(b.subrange(2, 18) =~= record.amount.serialized());
    assert(((c & 0xff) as u8 as u16) | (((c >> 8) as u8 as u16) << 8) == c) by (bit_vector);
    assert(b[4] == record.amount.serialized()[2]);
}

/// Writes a deposit as its 19 bytes.
pub fn encode(record: &DepositRecord) -> (r: [u8; 19])
    ensures
        r@ == encoded(*record),
{
    let c = record.client.into_inner();
    let a = record.amount.serialize();
    let state: u8 = match record.state {
        DisputeState::NeverDisputed => 0,
        DisputeState::Disputed => 1,
        DisputeState::Settled => 2,
    };
    let r = [(c & 0xff) as u8, (c >> 8) as u8, a[0], a[1], a[2], a[3], a[4], a[5], a[6], a[7], a[8], a[9], a[10], a[11], a[12], a[13], a[14], a[15], state];
    assert(r@ =~= encoded(*record));
    r
}

/// Reads a deposit back from its bytes: the client (little-endian), the
/// amount that `Decimal::deserialize` reads from bytes 2 to 17, and the state.
pub fn decode(bytes: &[u8]) -> (r: DepositRecord)
    requires
        bytes@.len() >= 19,
        bytes@[18] <= 2,
    ensures
        r == decoded(bytes@),
{
    let client = ClientId::new((bytes[0] as u16) | ((bytes[1] as u16) << 8));
    let amount_bytes: [u8; 16] = [bytes[2], bytes[3], bytes[4], bytes[5], bytes[6], bytes[7], bytes[8], bytes[9], bytes[10], bytes[11], bytes[12], bytes[13], bytes[14], bytes[15], bytes[16], bytes[17]];
    let amount = Amount::deserialize(amount_bytes);
    let state = match bytes[18] {
        0 => DisputeState::NeverDisputed,
        1 => DisputeState::Disputed,
        _ => DisputeState::Settled,
    };
    assert(amount_bytes@ =~= bytes@.subrange(2, 18));
    DepositRecord { client, amount, state }
}

/// `redb::Database`, the embedded B-tree database behind `LiveDepositStore`.
#[verifier::external_type_specification]
#[verifier::external_body]
pub struct ExDatabase(redb::Database);

/// `redb::DatabaseError`, why a database could not be opened.
#[verifier::external_type_specification]
#[verifier::external_body]
pub struct ExDatabaseError(redb::DatabaseError);

/// `tempfile::TempDir`, a directory removed when it is dropped.
#[verifier::external_type_specification]
#[verifier::external_body]
pub struct ExTempDir(tempfile::TempDir);

/// `std::io::Error`.
#[verifier::external_type_specification]
#[verifier::external_body]
pub struct ExIoError(std::io::Error);

/// The rows of a database's `deposits` table (`u32` keys, byte-string values).
pub uninterp spec fn stored_rows(db: redb::Database) -> Map<u32, Seq<u8>>;

/// Whether the database holds a `deposits` table, which a read transaction
/// needs to open (a write transaction creates it when it is missing).
pub uninterp spec fn has_deposits_table(db: redb::Database) -> bool;

/// `tempfile::TempDir::new`, then `redb::Database::create` on `deposits.redb`
/// inside that directory. The directory is new and empty, so the file does not
/// exist and redb initializes a new database in it, which holds no rows. A
/// failure of either call is handed back, in the variant that names it;
/// whether one happens depends on the file system and is not stated.
#[verifier::external_body]
fn create_database_in_temp_dir() -> (r: Result<
    (redb::Database, tempfile::TempDir),
    LiveDepositStoreError,
>)
    ensures
        r.is_ok() ==> stored_rows(r.unwrap().0).is_empty(),
{
    let dir = match tempfile::TempDir::new() {
        Ok(dir) => dir,
        Err(e) => return Err(LiveDepositStoreError::TempDir(e)),
    };
    match redb::Database::create(dir.path().join("deposits.redb")) {
        Ok(db) => Ok((db, dir)),
        Err(e) => Err(LiveDepositStoreError::OpenDatabase(e)),
    }
}

/// Creates the `deposits` table in one write transaction (`begin_write`,
/// `open_table`, `commit`), which creates the table when it is missing and
/// adds no row. A storage failure of redb panics, as a failing disk is not an
/// input the library can answer.
#[verifier::external_body]
fn create_deposits_table(db: &mut redb::Database)
    ensures
        has_deposits_table(*final(db)),
        stored_rows(*final(db)) == stored_rows(*old(db)),
{
    let table: redb::TableDefinition<u32, &[u8]> = redb::TableDefinition::new("deposits");
    let txn = db.begin_write().expect("failed to begin redb write transaction");
    txn.open_table(table).expect("failed to create deposits table");
    txn.commit().expect("failed to commit deposits table creation");
}

/// `Table::insert` of `value` under `key`, in a write transaction without
/// fsync (`Durability::None`) that is then committed; `open_table` in a write
/// transaction creates the table when it is missing. redb replaces any value
/// already under the key. A storage failure of redb panics.
#[verifier::external_body]
fn write_row(db: &mut redb::Database, key: u32, value: &[u8; 19])
    ensures
        stored_rows(*final(db)) == stored_rows(*old(db)).insert(key, value@),
        has_deposits_table(*final(db)),
{
    let table: redb::TableDefinition<u32, &[u8]> = redb::TableDefinition::new("deposits");
    let mut txn = db.begin_write().expect("failed to begin redb write transaction");
    txn.set_durability(redb::Durability::None);
    txn.open_table(table).expect("failed to open deposits table")
        .insert(key, &value[..]).expect("failed to write deposit record");
    txn.commit().expect("failed to commit deposit write");
}

/// `ReadOnlyTable::get` of `key` in a read transaction on a database that
/// holds the `deposits` table: the value stored under it, if any. A storage
/// failure of redb panics.
#[verifier::external_body]
fn read_row(db: &redb::Database, key: u32) -> (r: Option<Vec<u8>>)
    requires
        has_deposits_table(*db),
    ensures
        r is Some <==> stored_rows(*db).contains_key(key),
        r is Some ==> r->0@ == stored_rows(*db)[key],
{
    let table: redb::TableDefinition<u32, &[u8]> = redb::TableDefinition::new("deposits");
    let txn = db.begin_read().expect("failed to begin redb read transaction");
    let rows = txn.open_table(table).expect("failed to open deposits table");
    rows.get(key).expect("failed to read deposit record").map(|guard| guard.value().to_vec())
}

/// Why a `LiveDepositStore` could not be opened.
#[derive(Debug)]
pub enum LiveDepositStoreError {
    /// The temporary directory could not be created.
    TempDir(std::io::Error),
    /// The database could not be created in it.
    OpenDatabase(redb::DatabaseError),
}

/// A deposit store on disk: a redb database in a temporary directory that is
/// removed when the store is dropped. Each deposit is a row of the `deposits`
/// table, keyed by transaction id, holding the deposit's 19 bytes.
pub struct LiveDepositStore {
    // The database is declared first so that it is closed before its
    // directory is removed.
    db: redb::Database,
    _dir: tempfile::TempDir,
}

impl LiveDepositStore {
    /// Opens an empty store in a new temporary directory.
    pub fn new() -> (r: Result<LiveDepositStore, LiveDepositStoreError>)
        ensures
            r.is_ok() ==> r.unwrap().inv() && r.unwrap().deposit_map() == Map::<
                u32,
                DepositRecord,
            >::empty(),
    {
        let (mut db, dir) = match create_database_in_temp_dir() {
            Ok(created) => created,
            Err(e) => {
                return Err(e);
            },
        };
        create_deposits_table(&mut db);
        let store = LiveDepositStore { db, _dir: dir };
        assert(store.deposit_map() =~= Map::<u32, DepositRecord>::empty());
        Ok(store)
    }
}

impl DepositStore for LiveDepositStore {
    closed spec fn deposit_map(&self) -> Map<u32, DepositRecord> {
        stored_rows(self.db).map_values(|b: Seq<u8>| decoded(b))
    }

    closed spec fn inv(&self) -> bool {
        &&& has_deposits_table(self.db)
        &&& forall|k: u32| #[trigger]
            stored_rows(self.db).contains_key(k) ==> valid_encoding(stored_rows(self.db)[k])
    }

    fn insert(&mut self, tx: TxId, record: DepositRecord) {
        proof {
            use_type_invariant(&record.amount);
            lemma_decode_encode(record);
        }
        let bytes = encode(&record);
        write_row(&mut self.db, tx.into_inner(), &bytes);
        assert(self.deposit_map() =~= old(self).deposit_map().insert(tx@, record));
    }

    fn get(&self, tx: TxId) -> (r: Option<DepositRecord>) {
        match read_row(&self.db, tx.into_inner()) {
            Some(bytes) => Some(decode(bytes.as_slice())),
            None => None,
        }
    }

    fn set_state(&mut self, tx: TxId, state: DisputeState) {
        if let Some(bytes) = read_row(&self.db, tx.into_inner()) {
            let record = decode(bytes.as_slice());
            let updated = DepositRecord { state, ..record };
            proof {
                use_type_invariant(&updated.amount);
                lemma_decode_encode(updated);
            }
            let encoded_bytes = encode(&updated);
            write_row(&mut self.db, tx.into_inner(), &encoded_bytes);
            assert(self.deposit_map() =~= with_state(old(self).deposit_map(), tx@, state));
        }
    }
}

} // verus!
