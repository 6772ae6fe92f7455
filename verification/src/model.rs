use crate::amount::Amount;
use std::collections::hash_map;
use std::collections::HashMap;
use vstd::prelude::*;
use vstd::std_specs::iter::IteratorSpec;

verus! {

/// Identifier of a client account.
#[derive(Clone, Copy, Debug, PartialEq, Eq, Hash, Structural)]
pub struct ClientId(pub u16);

impl View for ClientId {
    type V = u16;

    open spec fn view(&self) -> u16 {
        self.0
    }
}

impl ClientId {
    pub fn new(value: u16) -> (r: ClientId)
        ensures
            r@ == value,
    {
        ClientId(value)
    }

    pub fn into_inner(self) -> (r: u16)
        ensures
            r == self@,
    {
        self.0
    }
}

/// Identifier of a transaction.
#[derive(Clone, Copy, Debug, PartialEq, Eq, Hash, Structural)]
pub struct TxId(pub u32);

impl View for TxId {
    type V = u32;

    open spec fn view(&self) -> u32 {
        self.0
    }
}

impl TxId {
    pub fn new(value: u32) -> (r: TxId)
        ensures
            r@ == value,
    {
        TxId(value)
    }

    pub fn into_inner(self) -> (r: u32)
        ensures
            r == self@,
    {
        self.0
    }
}

/// The kind of a transaction row.
#[derive(Clone, Copy, Debug, PartialEq, Eq, Structural)]
pub enum TxType {
    Deposit,
    Withdrawal,
    Dispute,
    Resolve,
    Chargeback,
}

/// Where a deposit stands in its one-way dispute life:
/// `NeverDisputed -> Disputed -> Settled`.
#[derive(Clone, Copy, Debug, PartialEq, Eq, Structural)]
pub enum DisputeState {
    NeverDisputed,
    Disputed,
    Settled,
}

/// What is kept of a deposit so that a later dispute, resolve or chargeback
/// can refer to it.
#[derive(Clone, Copy, Debug, PartialEq)]
pub struct DepositRecord {
    pub client: ClientId,
    pub amount: Amount,
    pub state: DisputeState,
}

/// A row as read from the input, before validation.
#[derive(Clone, Copy, Debug, PartialEq)]
pub struct RawEntry {
    pub tx_type: TxType,
    pub client: u16,
    pub tx: u32,
    pub amount: Option<Amount>,
}

/// A validated transaction: deposits and withdrawals carry an amount, the
/// other kinds carry none.
#[derive(Clone, Copy, Debug, PartialEq)]
pub struct Entry {
    pub tx_type: TxType,
    pub client: ClientId,
    pub tx: TxId,
    pub amount: Option<Amount>,
}

/// The balances of one client.
#[derive(Clone, Copy, Debug, PartialEq)]
pub struct Account {
    pub client: ClientId,
    pub available: Amount,
    pub held: Amount,
    pub total: Amount,
    pub locked: bool,
}

impl Account {
    /// The account a client's first deposit opens: all balances zero, unlocked.
    pub open spec fn fresh(client: ClientId) -> Account {
        Account {
            client,
            available: Amount::from_parts(false, 0, 0),
            held: Amount::from_parts(false, 0, 0),
            total: Amount::from_parts(false, 0, 0),
            locked: false,
        }
    }

    pub fn new(client: ClientId) -> (r: Account)
        ensures
            r == Account::fresh(client),
    {
        Account {
            client,
            available: Amount::zero(),
            held: Amount::zero(),
            total: Amount::zero(),
            locked: false,
        }
    }
}

/// `accounts` lists the accounts of `m` in the order of `clients`, which
/// names every client of `m` exactly once.
pub open spec fn lists_accounts(m: Map<u16, Account>, clients: Seq<u16>, accounts: Seq<Account>) -> bool {
    &&& clients.no_duplicates()
    &&& clients.to_set() == m.dom()
    &&& clients.len() == accounts.len()
    &&& forall|i: int| 0 <= i < clients.len() ==> accounts[i] == m[#[trigger] clients[i]]
}

/// Every account of `m`, one for each client, in the map's iteration order.
pub(crate) fn list_accounts(m: &HashMap<u16, Account>) -> (r: Vec<Account>)
    ensures
        exists|clients: Seq<u16>| lists_accounts(m@, clients, r@),
{
    broadcast use vstd::std_specs::hash::group_hash_axioms;

    let mut out: Vec<Account> = Vec::new();
    let ghost pairs = vstd::std_specs::hash::spec_hash_map_iter(m).remaining();
    for pair in it: m.iter()
        invariant
            it.seq() == pairs,
            out@.len() == it.index(),
            forall|i: int| 0 <= i < it.index() ==> out@[i] == *it.seq()[i].1,
    {
        out.push(*pair.1);
    }
    let ghost clients = Seq::new(pairs.len(), |i: int| *pairs[i].0);
    proof {
        assert forall|i: int| 0 <= i < clients.len() implies m@.contains_key(#[trigger] clients[i])
            && out@[i] == m@[clients[i]] by {
            assert(m@.contains_key(*pairs[i].0));
        }
        assert forall|i: int, j: int|
            0 <= i < clients.len() && 0 <= j < clients.len() && i != j implies clients[i]
            != clients[j] by {
            assert(m@.contains_key(*pairs[i].0));
            assert(m@.contains_key(*pairs[j].0));
            if clients[i] == clients[j] {
                assert(pairs[i] == pairs[j]);
            }
        }
        assert forall|k: u16| #[trigger] m@.contains_key(k) implies clients.contains(k) by {
            assert(pairs.contains((&k, &m@[k])));
            let i = choose|i: int| 0 <= i < pairs.len() && pairs[i] == (&k, &m@[k]);
            assert(clients[i] == k);
        }
        assert(clients.to_set() =~= m@.dom());
        assert(lists_accounts(m@, clients, out@));
    }
    out
}

/// Accounts by client, changed in place.
#[derive(Debug)]
pub struct Ledger {
    accounts: HashMap<u16, Account>,
}

impl View for Ledger {
    type V = Map<u16, Account>;

    closed spec fn view(&self) -> Map<u16, Account> {
        self.accounts@
    }
}

impl Default for Ledger {
    fn default() -> (r: Ledger)
        ensures
            r@ == Map::<u16, Account>::empty(),
    {
        Ledger::new()
    }
}

impl Ledger {
    /// A ledger with no accounts.
    pub fn new() -> (r: Ledger)
        ensures
            r@ == Map::<u16, Account>::empty(),
    {
        Ledger { accounts: HashMap::new() }
    }

    /// Every account, one for each client, in no particular order.
    pub fn accounts(&self) -> (r: Vec<Account>)
        ensures
            exists|clients: Seq<u16>| lists_accounts(self@, clients, r@),
    {
        let r = list_accounts(&self.accounts);
        proof {
            let clients = choose|clients: Seq<u16>| lists_accounts(self.accounts@, clients, r@);
            assert(lists_accounts(self@, clients, r@));
        }
        r
    }

    /// The account of `client`, opened with zero balances if it has none.
    pub fn entry(&mut self, client: ClientId) -> (r: &mut Account)
        ensures
            *r == (if old(self)@.contains_key(client@) {
                old(self)@[client@]
            } else {
                Account::fresh(client)
            }),
            final(self)@ == old(self)@.insert(client@, *final(r)),
    {
        broadcast use vstd::std_specs::hash::group_hash_axioms;

        self.accounts.entry(client.into_inner()).or_insert(Account::new(client))
    }

    /// The account of `client`, if it has one.
    pub fn get_mut(&mut self, client: ClientId) -> (r: Option<&mut Account>)
        ensures
            old(self)@.contains_key(client@) <==> r is Some,
            !old(self)@.contains_key(client@) ==> final(self)@ == old(self)@,
            old(self)@.contains_key(client@) ==> *r->0 == old(self)@[client@] && final(self)@
                == old(self)@.insert(client@, *final(r->0)),
    {
        broadcast use vstd::std_specs::hash::group_hash_axioms;

        match self.accounts.entry(client.into_inner()) {
            hash_map::Entry::Occupied(occupied) => Some(occupied.into_mut()),
            hash_map::Entry::Vacant(_) => None,
        }
    }
}

} // verus!
