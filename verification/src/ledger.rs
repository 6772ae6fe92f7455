use crate::model::{list_accounts, lists_accounts, Account, ClientId};
use std::collections::HashMap;
use vstd::prelude::*;

verus! {

broadcast use vstd::std_specs::hash::group_hash_axioms;

/// A read gives back what the last write wrote: after `upsert(client,
/// account)`, `get(client)` gives `account`, and every other client's account
/// is unchanged.
pub proof fn lemma_get_after_upsert(m: Map<u16, Account>, client: u16, account: Account, other: u16)
    requires
        other != client,
    ensures
        m.insert(client, account).get(client) == Some(account),
        m.insert(client, account).get(other) == m.get(other),
{
}

/// The accounts after upserting each `(client, account)` pair of `ups`, in
/// order, into `m`.
pub open spec fn upserted(m: Map<u16, Account>, ups: Seq<(u16, Account)>) -> Map<u16, Account>
    decreases ups.len(),
{
    if ups.len() == 0 {
        m
    } else {
        upserted(m, ups.drop_last()).insert(ups.last().0, ups.last().1)
    }
}

/// Some upsert of `ups` names `client`.
pub open spec fn names(ups: Seq<(u16, Account)>, client: u16) -> bool {
    exists|i: int| 0 <= i < ups.len() && #[trigger] ups[i].0 == client
}

/// The `i`-th upsert of `ups` is the last one that names `client`.
pub open spec fn last_naming(ups: Seq<(u16, Account)>, client: u16, i: int) -> bool {
    &&& 0 <= i < ups.len()
    &&& ups[i].0 == client
    &&& forall|j: int| i < j < ups.len() ==> #[trigger] ups[j].0 != client
}

/// After a sequence of upserts into an empty ledger, a read of a client gives
/// the account of the last upsert that named it, and nothing for a client
/// that no upsert named.
pub proof fn lemma_get_after_upserts(ups: Seq<(u16, Account)>, client: u16)
    ensures
        upserted(Map::empty(), ups).contains_key(client) <==> names(ups, client),
        forall|i: int| #[trigger]
            last_naming(ups, client, i) ==> upserted(Map::empty(), ups).get(client) == Some(
                ups[i].1,
            ),
    decreases ups.len(),
{
    if ups.len() > 0 {
        let prefix = ups.drop_last();
        let n = ups.len() - 1;
        lemma_get_after_upserts(prefix, client);
        if ups[n].0 == client {
            assert(names(ups, client)) by {
                assert(ups[n].0 == client);
            }
            assert forall|i: int| #[trigger] last_naming(ups, client, i) implies i == n by {
                if i < n {
                    assert(ups[n].0 != client);
                }
            }
        } else {
            assert(names(ups, client) <==> names(prefix, client)) by {
                if names(ups, client) {
                    let i = choose|i: int| 0 <= i < ups.len() && #[trigger] ups[i].0 == client;
                    assert(prefix[i].0 == client);
                }
                if names(prefix, client) {
                    let i = choose|i: int| 0 <= i < prefix.len() && #[trigger] prefix[i].0 == client;
                    assert(ups[i].0 == client);
                }
            }
            assert forall|i: int| #[trigger] last_naming(ups, client, i) implies last_naming(
                prefix,
                client,
                i,
            ) by {
                assert(i != n);
                assert forall|j: int| i < j < prefix.len() implies #[trigger] prefix[j].0 != client by {
                    assert(prefix[j] == ups[j]);
                }
            }
        }
    }
}

/// Listing the accounts after a sequence of upserts into an empty ledger
/// gives exactly one account for each client that an upsert named, the one of
/// the last upsert that named it, and nothing else.
pub proof fn lemma_accounts_after_upserts(
    ups: Seq<(u16, Account)>,
    clients: Seq<u16>,
    accounts: Seq<Account>,
)
    requires
        lists_accounts(upserted(Map::empty(), ups), clients, accounts),
    ensures
        clients.no_duplicates(),
        accounts.len() == clients.len(),
        forall|c: u16| clients.contains(c) <==> names(ups, c),
        forall|k: int, i: int|
            0 <= k < clients.len() && #[trigger] last_naming(ups, clients[k], i) ==> accounts[k]
                == ups[i].1,
{
    assert forall|c: u16| clients.contains(c) <==> names(ups, c) by {
        lemma_get_after_upserts(ups, c);
        assert(clients.to_set().contains(c) <==> clients.contains(c));
    }
    assert forall|k: int, i: int|
        0 <= k < clients.len() && #[trigger] last_naming(ups, clients[k], i) implies accounts[k]
        == ups[i].1 by {
        lemma_get_after_upserts(ups, clients[k]);
    }
}

/// Per-client balances, looked up by client id.
pub trait LedgerStore {
    /// The accounts held, by client id.
    spec fn account_map(&self) -> Map<u16, Account>;

    /// The account of `client`, if it has one.
    fn get(&self, client: ClientId) -> (r: Option<Account>)
        ensures
            r == self.account_map().get(client@),
    ;

    /// Stores `account` as the account of `client`, replacing any other.
    fn upsert(&mut self, client: ClientId, account: Account)
        ensures
            final(self).account_map() == old(self).account_map().insert(client@, account),
    ;

    /// Every account, one for each client, in no particular order.
    fn accounts(&self) -> (r: Vec<Account>)
        ensures
            exists|clients: Seq<u16>| lists_accounts(self.account_map(), clients, r@),
    ;
}

/// A ledger held in memory. `ClientId` is a `u16`, so it never holds more than
/// 65,536 accounts.
#[derive(Debug)]
pub struct InMemoryLedger {
    accounts: HashMap<u16, Account>,
}

impl InMemoryLedger {
    /// A ledger with no accounts.
    pub fn new() -> (r: InMemoryLedger)
        ensures
            r.account_map() == Map::<u16, Account>::empty(),
    {
        InMemoryLedger { accounts: HashMap::new() }
    }
}

impl Default for InMemoryLedger {
    fn default() -> (r: InMemoryLedger)
        ensures
            r.account_map() == Map::<u16, Account>::empty(),
    {
        InMemoryLedger::new()
    }
}

impl LedgerStore for InMemoryLedger {
    closed spec fn account_map(&self) -> Map<u16, Account> {
        self.accounts@
    }

    fn get(&self, client: ClientId) -> (r: Option<Account>) {
        match self.accounts.get(&client.into_inner()) {
            Some(account) => Some(*account),
            None => None,
        }
    }

    fn upsert(&mut self, client: ClientId, account: Account) {
        self.accounts.insert(client.into_inner(), account);
    }

    fn accounts(&self) -> (r: Vec<Account>) {
        let r = list_accounts(&self.accounts);
        proof {
            let clients = choose|clients: Seq<u16>| lists_accounts(self.accounts@, clients, r@);
            assert(lists_accounts(self.account_map(), clients, r@));
        }
        r
    }
}

} // verus!
