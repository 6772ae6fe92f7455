use crate::amount::{decimal_difference, decimal_sum, Amount};
use crate::ledger::{InMemoryLedger, LedgerStore};
use crate::model::{Account, ClientId, DepositRecord, DisputeState, Entry, TxType};
use crate::store::{with_state, DepositStore, InMemoryDepositStore};
use vstd::prelude::*;

verus! {

/// The deposits, by transaction id.
pub type Deposits = Map<u32, DepositRecord>;

/// The accounts, by client id.
pub type Accounts = Map<u16, Account>;

/// `a + b` as the decimal type computes it.
pub open spec fn plus(a: Amount, b: Amount) -> Amount {
    decimal_sum(a, b)->0
}

/// `a - b` as the decimal type computes it.
pub open spec fn minus(a: Amount, b: Amount) -> Amount {
    decimal_difference(a, b)->0
}

/// The sum is the exact one, in value and in how it is written.
pub open spec fn plus_exact(a: Amount, b: Amount) -> bool {
    &&& decimal_sum(a, b) == Some(Amount::exact_sum(a, b))
    &&& plus(a, b).units() == a.units() + b.units()
}

/// The difference is the exact one, in value and in how it is written.
pub open spec fn minus_exact(a: Amount, b: Amount) -> bool {
    &&& decimal_difference(a, b) == Some(Amount::exact_difference(a, b))
    &&& minus(a, b).units() == a.units() - b.units()
}

/// Subtracting and adding back the same amount gives the starting value,
/// whenever both operations are exact.
pub proof fn lemma_minus_then_plus(a: Amount, b: Amount)
    requires
        minus_exact(a, b),
        plus_exact(minus(a, b), b),
    ensures
        plus(minus(a, b), b).units() == a.units(),
{
}

/// The account that a deposit credits: the client's own, or a fresh one.
pub open spec fn deposit_target(accounts: Accounts, client: ClientId) -> Account {
    if accounts.contains_key(client@) {
        accounts[client@]
    } else {
        Account::fresh(client)
    }
}

/// A deposit is applied: it carries an amount and its client's account is not
/// locked.
pub open spec fn deposit_applies(accounts: Accounts, e: Entry) -> bool {
    &&& e.amount is Some
    &&& !(accounts.contains_key(e.client@) && accounts[e.client@].locked)
}

/// A withdrawal is applied: it carries an amount, its client has an account,
/// the account is not locked and its available funds cover the amount.
pub open spec fn withdrawal_applies(accounts: Accounts, e: Entry) -> bool {
    &&& e.amount is Some
    &&& accounts.contains_key(e.client@)
    &&& !accounts[e.client@].locked
    &&& !(accounts[e.client@].available.units() < e.amount->0.units())
}

/// A dispute, resolve or chargeback refers to a deposit of the same client,
/// whose account exists and is not locked.
pub open spec fn reference_valid(deposits: Deposits, accounts: Accounts, e: Entry) -> bool {
    &&& deposits.contains_key(e.tx@)
    &&& deposits[e.tx@].client@ == e.client@
    &&& accounts.contains_key(e.client@)
    &&& !accounts[e.client@].locked
}

/// A dispute is applied: its reference is valid, the deposit was never
/// disputed, and the available funds cover the deposit's amount.
pub open spec fn dispute_applies(deposits: Deposits, accounts: Accounts, e: Entry) -> bool {
    &&& reference_valid(deposits, accounts, e)
    &&& deposits[e.tx@].state == DisputeState::NeverDisputed
    &&& !(accounts[e.client@].available.units() < deposits[e.tx@].amount.units())
}

/// A resolve or a chargeback is applied: its reference is valid and the
/// deposit is under dispute.
pub open spec fn settlement_applies(deposits: Deposits, accounts: Accounts, e: Entry) -> bool {
    &&& reference_valid(deposits, accounts, e)
    &&& deposits[e.tx@].state == DisputeState::Disputed
}

/// The entry is applied, rather than ignored.
pub open spec fn applies(deposits: Deposits, accounts: Accounts, e: Entry) -> bool {
    match e.tx_type {
        TxType::Deposit => deposit_applies(accounts, e),
        TxType::Withdrawal => withdrawal_applies(accounts, e),
        TxType::Dispute => dispute_applies(deposits, accounts, e),
        TxType::Resolve => settlement_applies(deposits, accounts, e),
        TxType::Chargeback => settlement_applies(deposits, accounts, e),
    }
}

/// What one entry does to the deposits and the accounts. Every entry that does
/// not apply leaves both unchanged.
pub open spec fn step(deposits: Deposits, accounts: Accounts, e: Entry) -> (Deposits, Accounts) {
    let c = e.client@;
    match e.tx_type {
        TxType::Deposit => if deposit_applies(accounts, e) {
            let amount = e.amount->0;
            let acc = deposit_target(accounts, e.client);
            let acc2 = Account {
                available: plus(acc.available, amount),
                total: plus(acc.total, amount),
                ..acc
            };
            let record = DepositRecord {
                client: e.client,
                amount,
                state: DisputeState::NeverDisputed,
            };
            (deposits.insert(e.tx@, record), accounts.insert(c, acc2))
        } else {
            (deposits, accounts)
        },
        TxType::Withdrawal => if withdrawal_applies(accounts, e) {
            let amount = e.amount->0;
            let acc = accounts[c];
            let acc2 = Account {
                available: minus(acc.available, amount),
                total: minus(acc.total, amount),
                ..acc
            };
            (deposits, accounts.insert(c, acc2))
        } else {
            (deposits, accounts)
        },
        TxType::Dispute => if dispute_applies(deposits, accounts, e) {
            let amount = deposits[e.tx@].amount;
            let acc = accounts[c];
            let acc2 = Account {
                available: minus(acc.available, amount),
                held: plus(acc.held, amount),
                ..acc
            };
            (with_state(deposits, e.tx@, DisputeState::Disputed), accounts.insert(c, acc2))
        } else {
            (deposits, accounts)
        },
        TxType::Resolve => if settlement_applies(deposits, accounts, e) {
            let amount = deposits[e.tx@].amount;
            let acc = accounts[c];
            let acc2 = Account {
                available: plus(acc.available, amount),
                held: minus(acc.held, amount),
                ..acc
            };
            (with_state(deposits, e.tx@, DisputeState::Settled), accounts.insert(c, acc2))
        } else {
            (deposits, accounts)
        },
        TxType::Chargeback => if settlement_applies(deposits, accounts, e) {
            let amount = deposits[e.tx@].amount;
            let acc = accounts[c];
            let acc2 = Account {
                held: minus(acc.held, amount),
                total: minus(acc.total, amount),
                locked: true,
                ..acc
            };
            (with_state(deposits, e.tx@, DisputeState::Settled), accounts.insert(c, acc2))
        } else {
            (deposits, accounts)
        },
    }
}

/// The sums and differences that `step` computes are all defined: the decimal
/// type computes each of them without overflowing (`+` and `-` on decimals
/// panic where they are not).
pub open spec fn defined(deposits: Deposits, accounts: Accounts, e: Entry) -> bool {
    let c = e.client@;
    match e.tx_type {
        TxType::Deposit => deposit_applies(accounts, e) ==> {
            let acc = deposit_target(accounts, e.client);
            &&& decimal_sum(acc.available, e.amount->0) is Some
            &&& decimal_sum(acc.total, e.amount->0) is Some
        },
        TxType::Withdrawal => withdrawal_applies(accounts, e) ==> {
            &&& decimal_difference(accounts[c].available, e.amount->0) is Some
            &&& decimal_difference(accounts[c].total, e.amount->0) is Some
        },
        TxType::Dispute => dispute_applies(deposits, accounts, e) ==> {
            &&& decimal_difference(accounts[c].available, deposits[e.tx@].amount) is Some
            &&& decimal_sum(accounts[c].held, deposits[e.tx@].amount) is Some
        },
        TxType::Resolve => settlement_applies(deposits, accounts, e) ==> {
            &&& decimal_sum(accounts[c].available, deposits[e.tx@].amount) is Some
            &&& decimal_difference(accounts[c].held, deposits[e.tx@].amount) is Some
        },
        TxType::Chargeback => settlement_applies(deposits, accounts, e) ==> {
            &&& decimal_difference(accounts[c].held, deposits[e.tx@].amount) is Some
            &&& decimal_difference(accounts[c].total, deposits[e.tx@].amount) is Some
        },
    }
}

/// The decimal type computes every sum and difference that `step` does
/// exactly: in each, one operand is zero or the result fits in 96 bits at the
/// larger scale of the two.
pub open spec fn fits(deposits: Deposits, accounts: Accounts, e: Entry) -> bool {
    let c = e.client@;
    match e.tx_type {
        TxType::Deposit => deposit_applies(accounts, e) ==> {
            let acc = deposit_target(accounts, e.client);
            &&& Amount::sum_is_exact(acc.available, e.amount->0)
            &&& Amount::sum_is_exact(acc.total, e.amount->0)
        },
        TxType::Withdrawal => withdrawal_applies(accounts, e) ==> {
            &&& Amount::difference_is_exact(accounts[c].available, e.amount->0)
            &&& Amount::difference_is_exact(accounts[c].total, e.amount->0)
        },
        TxType::Dispute => dispute_applies(deposits, accounts, e) ==> {
            &&& Amount::difference_is_exact(accounts[c].available, deposits[e.tx@].amount)
            &&& Amount::sum_is_exact(accounts[c].held, deposits[e.tx@].amount)
        },
        TxType::Resolve => settlement_applies(deposits, accounts, e) ==> {
            &&& Amount::sum_is_exact(accounts[c].available, deposits[e.tx@].amount)
            &&& Amount::difference_is_exact(accounts[c].held, deposits[e.tx@].amount)
        },
        TxType::Chargeback => settlement_applies(deposits, accounts, e) ==> {
            &&& Amount::difference_is_exact(accounts[c].held, deposits[e.tx@].amount)
            &&& Amount::difference_is_exact(accounts[c].total, deposits[e.tx@].amount)
        },
    }
}

/// The sums and differences that `step` computes are exact in value.
pub open spec fn step_exact(deposits: Deposits, accounts: Accounts, e: Entry) -> bool {
    let c = e.client@;
    match e.tx_type {
        TxType::Deposit => deposit_applies(accounts, e) ==> {
            let acc = deposit_target(accounts, e.client);
            &&& plus_exact(acc.available, e.amount->0)
            &&& plus_exact(acc.total, e.amount->0)
        },
        TxType::Withdrawal => withdrawal_applies(accounts, e) ==> {
            &&& minus_exact(accounts[c].available, e.amount->0)
            &&& minus_exact(accounts[c].total, e.amount->0)
        },
        TxType::Dispute => dispute_applies(deposits, accounts, e) ==> {
            &&& minus_exact(accounts[c].available, deposits[e.tx@].amount)
            &&& plus_exact(accounts[c].held, deposits[e.tx@].amount)
        },
        TxType::Resolve => settlement_applies(deposits, accounts, e) ==> {
            &&& plus_exact(accounts[c].available, deposits[e.tx@].amount)
            &&& minus_exact(accounts[c].held, deposits[e.tx@].amount)
        },
        TxType::Chargeback => settlement_applies(deposits, accounts, e) ==> {
            &&& minus_exact(accounts[c].held, deposits[e.tx@].amount)
            &&& minus_exact(accounts[c].total, deposits[e.tx@].amount)
        },
    }
}

fn sum_defined(a: Amount, b: Amount) -> (r: bool)
    ensures
        r == (decimal_sum(a, b) is Some),
{
    a.checked_add(b).is_some()
}

fn difference_defined(a: Amount, b: Amount) -> (r: bool)
    ensures
        r == (decimal_difference(a, b) is Some),
{
    a.checked_sub(b).is_some()
}

/// Whether `apply_entry` can apply `entry`: the decimal arithmetic it would
/// do does not overflow.
pub fn can_apply<D: DepositStore, L: LedgerStore>(deposits: &D, ledger: &L, entry: &Entry) -> (r:
    bool)
    requires
        deposits.inv(),
    ensures
        r == defined(deposits.deposit_map(), ledger.account_map(), *entry),
{
    let client = entry.client;
    match entry.tx_type {
        TxType::Deposit => {
            let amount = match entry.amount {
                Some(a) => a,
                None => {
                    return true;
                },
            };
            let account = match ledger.get(client) {
                Some(acc) => {
                    if acc.locked {
                        return true;
                    }
                    acc
                },
                None => Account::new(client),
            };
            sum_defined(account.available, amount) && sum_defined(account.total, amount)
        },
        TxType::Withdrawal => {
            let amount = match entry.amount {
                Some(a) => a,
                None => {
                    return true;
                },
            };
            match ledger.get(client) {
                Some(acc) => {
                    if acc.locked || acc.available.decimal_lt(amount) {
                        true
                    } else {
                        difference_defined(acc.available, amount) && difference_defined(acc.total, amount)
                    }
                },
                None => true,
            }
        },
        TxType::Dispute | TxType::Resolve | TxType::Chargeback => {
            let record = match deposits.get(entry.tx) {
                Some(r) => r,
                None => {
                    return true;
                },
            };
            if record.client.into_inner() != client.into_inner() {
                return true;
            }
            let acc = match ledger.get(client) {
                Some(acc) => acc,
                None => {
                    return true;
                },
            };
            if acc.locked {
                return true;
            }
            let amount = record.amount;
            match entry.tx_type {
                TxType::Dispute => {
                    match record.state {
                        DisputeState::NeverDisputed => {},
                        _ => {
                            return true;
                        },
                    }
                    if acc.available.decimal_lt(amount) {
                        return true;
                    }
                    difference_defined(acc.available, amount) && sum_defined(acc.held, amount)
                },
                _ => {
                    match record.state {
                        DisputeState::Disputed => {},
                        _ => {
                            return true;
                        },
                    }
                    match entry.tx_type {
                        TxType::Resolve => sum_defined(acc.available, amount)
                            && difference_defined(acc.held, amount),
                        _ => difference_defined(acc.held, amount) && difference_defined(acc.total, amount),
                    }
                },
            }
        },
    }
}

/// Applies one entry to the deposits and the ledger.
pub fn apply_entry<D: DepositStore, L: LedgerStore>(deposits: &mut D, ledger: &mut L, entry: &Entry)
    requires
        old(deposits).inv(),
        defined(old(deposits).deposit_map(), old(ledger).account_map(), *entry),
    ensures
        final(deposits).inv(),
        (final(deposits).deposit_map(), final(ledger).account_map()) == step(
            old(deposits).deposit_map(),
            old(ledger).account_map(),
            *entry,
        ),
        fits(old(deposits).deposit_map(), old(ledger).account_map(), *entry) ==> step_exact(
            old(deposits).deposit_map(),
            old(ledger).account_map(),
            *entry,
        ),
{
    let client = entry.client;
    match entry.tx_type {
        TxType::Deposit => {
            let amount = match entry.amount {
                Some(a) => a,
                None => {
                    return ;
                },
            };
            let mut account = match ledger.get(client) {
                Some(acc) => {
                    if acc.locked {
                        return ;
                    }
                    acc
                },
                None => Account::new(client),
            };
            account.available = account.available.add(amount);
            account.total = account.total.add(amount);
            ledger.upsert(client, account);
            deposits.insert(
                entry.tx,
                DepositRecord { client, amount, state: DisputeState::NeverDisputed },
            );
        },
        TxType::Withdrawal => {
            let amount = match entry.amount {
                Some(a) => a,
                None => {
                    return ;
                },
            };
            let mut account = match ledger.get(client) {
                Some(acc) => acc,
                None => {
                    return ;
                },
            };
            if account.locked || account.available.decimal_lt(amount) {
                return ;
            }
            account.available = account.available.sub(amount);
            account.total = account.total.sub(amount);
            ledger.upsert(client, account);
        },
        TxType::Dispute | TxType::Resolve | TxType::Chargeback => {
            let record = match deposits.get(entry.tx) {
                Some(r) => r,
                None => {
                    return ;
                },
            };
            if record.client.into_inner() != client.into_inner() {
                return ;
            }
            let mut account = match ledger.get(client) {
                Some(acc) => acc,
                None => {
                    return ;
                },
            };
            if account.locked {
                return ;
            }
            let amount = record.amount;
            match entry.tx_type {
                TxType::Dispute => {
                    match record.state {
                        DisputeState::NeverDisputed => {},
                        _ => {
                            return ;
                        },
                    }
                    if account.available.decimal_lt(amount) {
                        return ;
                    }
                    account.available = account.available.sub(amount);
                    account.held = account.held.add(amount);
                    ledger.upsert(client, account);
                    deposits.set_state(entry.tx, DisputeState::Disputed);
                },
                TxType::Resolve => {
                    match record.state {
                        DisputeState::Disputed => {},
                        _ => {
                            return ;
                        },
                    }
                    account.held = account.held.sub(amount);
                    account.available = account.available.add(amount);
                    ledger.upsert(client, account);
                    deposits.set_state(entry.tx, DisputeState::Settled);
                },
                _ => {
                    match record.state {
                        DisputeState::Disputed => {},
                        _ => {
                            return ;
                        },
                    }
                    account.held = account.held.sub(amount);
                    account.total = account.total.sub(amount);
                    account.locked = true;
                    ledger.upsert(client, account);
                    deposits.set_state(entry.tx, DisputeState::Settled);
                },
            }
        },
    }
}

/// Applies `entry` when its arithmetic is defined, and says whether it did;
/// otherwise leaves the deposits and the ledger as they are.
pub fn try_apply_entry<D: DepositStore, L: LedgerStore>(
    deposits: &mut D,
    ledger: &mut L,
    entry: &Entry,
) -> (r: bool)
    requires
        old(deposits).inv(),
    ensures
        final(deposits).inv(),
        r == defined(old(deposits).deposit_map(), old(ledger).account_map(), *entry),
        r ==> (final(deposits).deposit_map(), final(ledger).account_map()) == step(
            old(deposits).deposit_map(),
            old(ledger).account_map(),
            *entry,
        ),
        r ==> (fits(old(deposits).deposit_map(), old(ledger).account_map(), *entry) ==> step_exact(
            old(deposits).deposit_map(),
            old(ledger).account_map(),
            *entry,
        )),
        !r ==> final(deposits).deposit_map() == old(deposits).deposit_map(),
        !r ==> final(ledger).account_map() == old(ledger).account_map(),
{
    if can_apply(deposits, ledger, entry) {
        apply_entry(deposits, ledger, entry);
        true
    } else {
        false
    }
}

/// The deposits and accounts after applying `entries` in order.
pub open spec fn run_spec(deposits: Deposits, accounts: Accounts, entries: Seq<Entry>) -> (
    Deposits,
    Accounts,
)
    decreases entries.len(),
{
    if entries.len() == 0 {
        (deposits, accounts)
    } else {
        let (d, a) = run_spec(deposits, accounts, entries.drop_last());
        step(d, a, entries.last())
    }
}

/// Every entry, applied in order, is defined in turn.
pub open spec fn run_defined(deposits: Deposits, accounts: Accounts, entries: Seq<Entry>) -> bool
    decreases entries.len(),
{
    if entries.len() == 0 {
        true
    } else {
        let (d, a) = run_spec(deposits, accounts, entries.drop_last());
        run_defined(deposits, accounts, entries.drop_last()) && defined(d, a, entries.last())
    }
}

/// Every entry, applied in order, fits in turn.
pub open spec fn run_fits(deposits: Deposits, accounts: Accounts, entries: Seq<Entry>) -> bool
    decreases entries.len(),
{
    if entries.len() == 0 {
        true
    } else {
        let (d, a) = run_spec(deposits, accounts, entries.drop_last());
        run_fits(deposits, accounts, entries.drop_last()) && fits(d, a, entries.last())
    }
}

/// Every step of the run whose arithmetic fits computed its sums and
/// differences exactly.
pub open spec fn run_exact(deposits: Deposits, accounts: Accounts, entries: Seq<Entry>) -> bool
    decreases entries.len(),
{
    if entries.len() == 0 {
        true
    } else {
        let (d, a) = run_spec(deposits, accounts, entries.drop_last());
        &&& run_exact(deposits, accounts, entries.drop_last())
        &&& fits(d, a, entries.last()) ==> step_exact(d, a, entries.last())
    }
}

/// A run of `entries` followed by `e` is the run of `entries`, then `step`
/// on `e`: one more entry changes the state exactly as `step` says, and is
/// defined, fits and is exact exactly when `e` is so on the state reached.
pub proof fn lemma_run_append(deposits: Deposits, accounts: Accounts, entries: Seq<Entry>, e: Entry)
    ensures
        ({
            let (d, a) = run_spec(deposits, accounts, entries);
            &&& run_spec(deposits, accounts, entries.push(e)) == step(d, a, e)
            &&& run_defined(deposits, accounts, entries.push(e)) == (run_defined(
                deposits,
                accounts,
                entries,
            ) && defined(d, a, e))
            &&& run_fits(deposits, accounts, entries.push(e)) == (run_fits(
                deposits,
                accounts,
                entries,
            ) && fits(d, a, e))
        }),
{
    assert(entries.push(e).drop_last() =~= entries);
}

proof fn lemma_run_defined_prefix(deposits: Deposits, accounts: Accounts, entries: Seq<Entry>, k: int)
    requires
        run_defined(deposits, accounts, entries),
        0 <= k <= entries.len(),
    ensures
        run_defined(deposits, accounts, entries.take(k)),
    decreases entries.len(),
{
    if k < entries.len() {
        assert(entries.drop_last().take(k) =~= entries.take(k));
        lemma_run_defined_prefix(deposits, accounts, entries.drop_last(), k);
    } else {
        assert(entries.take(k) =~= entries);
    }
}

/// Applies `entries` in order to the given stores and hands back the ledger.
pub fn run_with_stores<D: DepositStore, L: LedgerStore>(
    entries: Vec<Entry>,
    deposits: D,
    ledger: L,
) -> (r: L)
    requires
        deposits.inv(),
        run_defined(deposits.deposit_map(), ledger.account_map(), entries@),
    ensures
        r.account_map() == run_spec(deposits.deposit_map(), ledger.account_map(), entries@).1,
        run_exact(deposits.deposit_map(), ledger.account_map(), entries@),
{
    let mut deposits = deposits;
    let mut ledger = ledger;
    let ghost d0 = deposits.deposit_map();
    let ghost a0 = ledger.account_map();
    let n = entries.len();
    let mut i: usize = 0;
    proof {
        assert(entries@.take(0) =~= Seq::<Entry>::empty());
    }
    while i < n
        invariant
            n == entries@.len(),
            i <= n,
            deposits.inv(),
            run_defined(d0, a0, entries@),
            (deposits.deposit_map(), ledger.account_map()) == run_spec(d0, a0, entries@.take(i as int)),
            run_exact(d0, a0, entries@.take(i as int)),
        decreases n - i,
    {
        proof {
            lemma_run_defined_prefix(d0, a0, entries@, i + 1);
            assert(entries@.take(i + 1).drop_last() =~= entries@.take(i as int));
        }
        apply_entry(&mut deposits, &mut ledger, &entries[i]);
        i = i + 1;
    }
    proof {
        assert(entries@.take(n as int) =~= entries@);
    }
    ledger
}

/// Applies `entries` in order to the given stores for as long as their
/// arithmetic is defined, and stops before the first entry whose arithmetic
/// would overflow. Hands back the ledger and the number of entries applied.
pub fn try_run_with_stores<D: DepositStore, L: LedgerStore>(
    entries: Vec<Entry>,
    deposits: D,
    ledger: L,
) -> (r: (L, usize))
    requires
        deposits.inv(),
    ensures
        r.1 <= entries.len(),
        run_defined(deposits.deposit_map(), ledger.account_map(), entries@.take(r.1 as int)),
        r.0.account_map() == run_spec(
            deposits.deposit_map(),
            ledger.account_map(),
            entries@.take(r.1 as int),
        ).1,
        run_exact(deposits.deposit_map(), ledger.account_map(), entries@.take(r.1 as int)),
        r.1 < entries.len() ==> !defined(
            run_spec(deposits.deposit_map(), ledger.account_map(), entries@.take(r.1 as int)).0,
            run_spec(deposits.deposit_map(), ledger.account_map(), entries@.take(r.1 as int)).1,
            entries@[r.1 as int],
        ),
{
    let mut deposits = deposits;
    let mut ledger = ledger;
    let ghost d0 = deposits.deposit_map();
    let ghost a0 = ledger.account_map();
    let n = entries.len();
    let mut i: usize = 0;
    let mut going = true;
    proof {
        assert(entries@.take(0) =~= Seq::<Entry>::empty());
    }
    while going && i < n
        invariant
            n == entries@.len(),
            i <= n,
            deposits.inv(),
            (deposits.deposit_map(), ledger.account_map()) == run_spec(d0, a0, entries@.take(i as int)),
            run_defined(d0, a0, entries@.take(i as int)),
            run_exact(d0, a0, entries@.take(i as int)),
            !going ==> i < n && !defined(
                run_spec(d0, a0, entries@.take(i as int)).0,
                run_spec(d0, a0, entries@.take(i as int)).1,
                entries@[i as int],
            ),
        decreases (n - i) * 2 + (if going { 1int } else { 0int }),
    {
        proof {
            assert(entries@.take(i + 1).drop_last() =~= entries@.take(i as int));
            assert(entries@.take(i + 1).last() == entries@[i as int]);
        }
        if try_apply_entry(&mut deposits, &mut ledger, &entries[i]) {
            i = i + 1;
        } else {
            going = false;
        }
    }
    (ledger, i)
}

/// Applies `entries` in order to an empty in-memory deposit store and ledger
/// for as long as their arithmetic is defined; hands back the ledger and the
/// number of entries applied.
pub fn try_run(entries: Vec<Entry>) -> (r: (InMemoryLedger, usize))
    ensures
        r.1 <= entries.len(),
        run_defined(Map::empty(), Map::empty(), entries@.take(r.1 as int)),
        r.0.account_map() == run_spec(Map::empty(), Map::empty(), entries@.take(r.1 as int)).1,
        run_exact(Map::empty(), Map::empty(), entries@.take(r.1 as int)),
        r.1 < entries.len() ==> !defined(
            run_spec(Map::empty(), Map::empty(), entries@.take(r.1 as int)).0,
            run_spec(Map::empty(), Map::empty(), entries@.take(r.1 as int)).1,
            entries@[r.1 as int],
        ),
{
    try_run_with_stores(entries, InMemoryDepositStore::new(), InMemoryLedger::new())
}

/// Applies `entries` in order to an empty in-memory deposit store and ledger.
pub fn run(entries: Vec<Entry>) -> (r: InMemoryLedger)
    requires
        run_defined(Map::empty(), Map::empty(), entries@),
    ensures
        r.account_map() == run_spec(Map::empty(), Map::empty(), entries@).1,
        run_exact(Map::empty(), Map::empty(), entries@),
{
    run_with_stores(entries, InMemoryDepositStore::new(), InMemoryLedger::new())
}

} // verus!
