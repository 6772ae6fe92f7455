use crate::amount::Amount;
use crate::engine::{
    applies, deposit_target, fits, lemma_run_append, minus, plus, reference_valid, run_exact,
    run_fits, run_spec, step, step_exact, Accounts, Deposits,
};
use crate::store::with_state;
use crate::model::{Account, DepositRecord, DisputeState, Entry, TxType};
use vstd::prelude::*;
use vstd::set::fold::{is_fun_commutative, lemma_fold_empty, lemma_fold_insert};

verus! {

/// Every account's total is its available plus its held funds.
pub open spec fn balanced(accounts: Accounts) -> bool {
    forall|c: u16| #[trigger]
        accounts.contains_key(c) ==> accounts[c].available.units() + accounts[c].held.units()
            == accounts[c].total.units()
}

/// What one disputed deposit holds back for client `c`.
pub open spec fn held_for(deposits: Deposits, c: u16, tx: u32) -> int {
    if deposits.contains_key(tx) && deposits[tx].client@ == c && deposits[tx].state
        == DisputeState::Disputed {
        deposits[tx].amount.units()
    } else {
        0
    }
}

/// Adds what deposit `tx` holds back for client `c` to a running sum.
pub open spec fn held_adder(deposits: Deposits, c: u16) -> spec_fn(int, u32) -> int {
    |acc: int, tx: u32| acc + held_for(deposits, c, tx)
}

/// The amounts of the client's deposits that are under dispute, summed.
pub open spec fn disputed_total(deposits: Deposits, c: u16) -> int {
    deposits.dom().fold(0, held_adder(deposits, c))
}

/// Every deposit amount is non-negative and belongs to a client with an
/// account; every account's available funds are non-negative and its held
/// funds cover the deposits it has under dispute.
pub open spec fn solvent(deposits: Deposits, accounts: Accounts) -> bool {
    &&& deposits.dom().finite()
    &&& forall|tx: u32| #[trigger]
        deposits.contains_key(tx) ==> deposits[tx].amount.units() >= 0 && accounts.contains_key(
            deposits[tx].client@,
        )
    &&& forall|c: u16| #[trigger]
        accounts.contains_key(c) ==> accounts[c].available.units() >= 0
            && accounts[c].held.units() >= disputed_total(deposits, c)
}

proof fn lemma_adder_commutative(deposits: Deposits, c: u16)
    ensures
        is_fun_commutative(held_adder(deposits, c)),
{
}

proof fn lemma_fold_remove(deposits: Deposits, c: u16, s: Set<u32>, x: u32)
    requires
        s.finite(),
        s.contains(x),
    ensures
        s.fold(0, held_adder(deposits, c)) == s.remove(x).fold(0, held_adder(deposits, c))
            + held_for(deposits, c, x),
{
    lemma_adder_commutative(deposits, c);
    lemma_fold_insert(s.remove(x), 0, held_adder(deposits, c), x);
    assert(s.remove(x).insert(x) =~= s);
}

proof fn lemma_fold_agree(d1: Deposits, d2: Deposits, c: u16, s: Set<u32>)
    requires
        s.finite(),
        forall|x: u32| s.contains(x) ==> held_for(d1, c, x) == held_for(d2, c, x),
    ensures
        s.fold(0, held_adder(d1, c)) == s.fold(0, held_adder(d2, c)),
    decreases s.len(),
{
    if s.len() == 0 {
        assert(s =~= Set::empty());
        lemma_fold_empty(0, held_adder(d1, c));
        lemma_fold_empty(0, held_adder(d2, c));
    } else {
        let x = s.choose();
        lemma_fold_remove(d1, c, s, x);
        lemma_fold_remove(d2, c, s, x);
        lemma_fold_agree(d1, d2, c, s.remove(x));
    }
}

proof fn lemma_fold_nonnegative(d: Deposits, c: u16, s: Set<u32>)
    requires
        s.finite(),
        forall|x: u32| s.contains(x) ==> held_for(d, c, x) >= 0,
    ensures
        s.fold(0, held_adder(d, c)) >= 0,
    decreases s.len(),
{
    if s.len() == 0 {
        assert(s =~= Set::empty());
        lemma_fold_empty(0, held_adder(d, c));
    } else {
        let x = s.choose();
        lemma_fold_remove(d, c, s, x);
        lemma_fold_nonnegative(d, c, s.remove(x));
    }
}

proof fn lemma_fold_zero(d: Deposits, c: u16, s: Set<u32>)
    requires
        s.finite(),
        forall|x: u32| s.contains(x) ==> held_for(d, c, x) == 0,
    ensures
        s.fold(0, held_adder(d, c)) == 0,
    decreases s.len(),
{
    if s.len() == 0 {
        assert(s =~= Set::empty());
        lemma_fold_empty(0, held_adder(d, c));
    } else {
        let x = s.choose();
        lemma_fold_remove(d, c, s, x);
        lemma_fold_zero(d, c, s.remove(x));
    }
}

/// Replacing the deposit under `tx` changes a client's disputed total by what
/// that one deposit holds back for the client, before and after.
proof fn lemma_disputed_total_insert(
    deposits: Deposits,
    tx: u32,
    record: DepositRecord,
    c: u16,
)
    requires
        deposits.dom().finite(),
    ensures
        disputed_total(deposits.insert(tx, record), c) == disputed_total(deposits, c) - held_for(
            deposits,
            c,
            tx,
        ) + held_for(deposits.insert(tx, record), c, tx),
{
    let d2 = deposits.insert(tx, record);
    let s = deposits.dom();
    let s2 = d2.dom();
    let rest = s.remove(tx);
    assert(s2.remove(tx) =~= rest);
    lemma_fold_remove(d2, c, s2, tx);
    lemma_fold_agree(d2, deposits, c, rest);
    if s.contains(tx) {
        lemma_fold_remove(deposits, c, s, tx);
    } else {
        assert(rest =~= s);
    }
}

/// An account's total is always its available plus its held funds: every
/// step keeps this true of every account.
pub proof fn lemma_step_keeps_balance(deposits: Deposits, accounts: Accounts, e: Entry)
    requires
        balanced(accounts),
        step_exact(deposits, accounts, e),
    ensures
        balanced(step(deposits, accounts, e).1),
{
    Amount::lemma_zero_units();
    let a2 = step(deposits, accounts, e).1;
    assert forall|c: u16| #[trigger] a2.contains_key(c) implies a2[c].available.units()
        + a2[c].held.units() == a2[c].total.units() by {
        if c != e.client@ {
            assert(accounts.contains_key(c));
        }
    }
}

/// Disputed totals are never negative when every deposit amount is not.
proof fn lemma_disputed_total_nonnegative(deposits: Deposits, accounts: Accounts, c: u16)
    requires
        solvent(deposits, accounts),
    ensures
        disputed_total(deposits, c) >= 0,
{
    lemma_fold_nonnegative(deposits, c, deposits.dom());
}

/// In a solvent, balanced state no balance is negative.
pub proof fn lemma_solvent_balances_nonnegative(deposits: Deposits, accounts: Accounts, c: u16)
    requires
        balanced(accounts),
        solvent(deposits, accounts),
        accounts.contains_key(c),
    ensures
        accounts[c].available.units() >= 0,
        accounts[c].held.units() >= 0,
        accounts[c].total.units() >= 0,
{
    lemma_disputed_total_nonnegative(deposits, accounts, c);
}

/// Balances never go negative: as long as deposits carry non-negative
/// amounts, every step keeps the state solvent (and so, with the balance
/// law, keeps available, held and total funds non-negative).
pub proof fn lemma_step_keeps_solvency(deposits: Deposits, accounts: Accounts, e: Entry)
    requires
        balanced(accounts),
        solvent(deposits, accounts),
        step_exact(deposits, accounts, e),
        e.tx_type == TxType::Deposit && e.amount is Some ==> e.amount->0.units() >= 0,
    ensures
        solvent(step(deposits, accounts, e).0, step(deposits, accounts, e).1),
{
    Amount::lemma_zero_units();
    let (d2, a2) = step(deposits, accounts, e);
    let ce = e.client@;
    let tx = e.tx@;
    if d2 == deposits && a2 == accounts {
    } else if e.tx_type == TxType::Withdrawal {
        assert forall|c: u16| #[trigger] a2.contains_key(c) implies a2[c].available.units() >= 0
            && a2[c].held.units() >= disputed_total(d2, c) by {
            if c != ce {
                assert(accounts.contains_key(c));
            }
        }
    } else {
        let record = d2[tx];
        assert(d2 == deposits.insert(tx, record));
        assert forall|c: u16| #[trigger] a2.contains_key(c) implies a2[c].available.units() >= 0
            && a2[c].held.units() >= disputed_total(d2, c) by {
            lemma_disputed_total_insert(deposits, tx, record, c);
            if deposits.contains_key(tx) {
                assert(deposits[tx].amount.units() >= 0);
            }
            if c == ce && !accounts.contains_key(c) {
                assert forall|x: u32| deposits.dom().contains(x) implies held_for(deposits, c, x)
                    == 0 by {
                    assert(accounts.contains_key(deposits[x].client@));
                }
                lemma_fold_zero(deposits, c, deposits.dom());
            }
            if c != ce {
                assert(accounts.contains_key(c));
            }
        }
        assert forall|x: u32| #[trigger] d2.contains_key(x) implies d2[x].amount.units() >= 0
            && a2.contains_key(d2[x].client@) by {
            if x != tx {
                assert(deposits.contains_key(x));
            }
        }
    }
}

/// A locked account ignores everything: any entry of its client leaves the
/// deposits and the accounts unchanged.
pub proof fn lemma_locked_client_ignored(deposits: Deposits, accounts: Accounts, e: Entry)
    requires
        accounts.contains_key(e.client@),
        accounts[e.client@].locked,
    ensures
        step(deposits, accounts, e) == (deposits, accounts),
{
}

/// A locked account stays as it is, whatever entry comes next.
pub proof fn lemma_locked_account_frozen(
    deposits: Deposits,
    accounts: Accounts,
    e: Entry,
    c: u16,
)
    requires
        accounts.contains_key(c),
        accounts[c].locked,
    ensures
        step(deposits, accounts, e).1.contains_key(c),
        step(deposits, accounts, e).1[c] == accounts[c],
{
}

/// Accounts are never removed, and only a deposit opens one (for its own
/// client): a withdrawal, dispute, resolve or chargeback never creates an
/// account.
pub proof fn lemma_accounts_open_only_on_deposit(
    deposits: Deposits,
    accounts: Accounts,
    e: Entry,
)
    ensures
        accounts.dom().subset_of(step(deposits, accounts, e).1.dom()),
        step(deposits, accounts, e).1.dom().subset_of(accounts.dom().insert(e.client@)),
        e.tx_type != TxType::Deposit ==> step(deposits, accounts, e).1.dom() == accounts.dom(),
{
    let a2 = step(deposits, accounts, e).1;
    if e.tx_type != TxType::Deposit {
        assert(a2.dom() =~= accounts.dom());
    }
}

/// A dispute, resolve or chargeback that names a transaction with no deposit
/// (a withdrawal's, or none), or a deposit of another client, is ignored.
pub proof fn lemma_foreign_reference_ignored(
    deposits: Deposits,
    accounts: Accounts,
    e: Entry,
)
    requires
        e.tx_type == TxType::Dispute || e.tx_type == TxType::Resolve || e.tx_type
            == TxType::Chargeback,
        !deposits.contains_key(e.tx@) || deposits[e.tx@].client@ != e.client@,
    ensures
        step(deposits, accounts, e) == (deposits, accounts),
{
}

/// A withdrawal from an unknown client, or larger than the available funds,
/// is ignored; so is a dispute whose deposit the available funds do not
/// cover (the deposit stays never-disputed).
pub proof fn lemma_short_funds_ignored(
    deposits: Deposits,
    accounts: Accounts,
    e: Entry,
)
    requires
        e.tx_type == TxType::Withdrawal ==> !accounts.contains_key(e.client@) || (
        e.amount is Some && accounts[e.client@].available.units() < e.amount->0.units()),
        e.tx_type == TxType::Dispute ==> reference_valid(deposits, accounts, e)
            && accounts[e.client@].available.units() < deposits[e.tx@].amount.units(),
        e.tx_type == TxType::Withdrawal || e.tx_type == TxType::Dispute,
    ensures
        step(deposits, accounts, e) == (deposits, accounts),
{
}

/// A deposit's dispute state only moves forward, `NeverDisputed -> Disputed
/// -> Settled`, one stage per entry, and `Settled` is final; its client and
/// amount never change. The one exception is a new deposit that reuses the
/// same transaction id, which replaces the record.
pub proof fn lemma_dispute_state_advances(
    deposits: Deposits,
    accounts: Accounts,
    e: Entry,
    tx: u32,
)
    requires
        deposits.contains_key(tx),
        !(e.tx_type == TxType::Deposit && e.tx@ == tx),
    ensures
        ({
            let d2 = step(deposits, accounts, e).0;
            &&& d2.contains_key(tx)
            &&& d2[tx].client == deposits[tx].client
            &&& d2[tx].amount == deposits[tx].amount
            &&& {
                ||| d2[tx].state == deposits[tx].state
                ||| deposits[tx].state == DisputeState::NeverDisputed && d2[tx].state
                    == DisputeState::Disputed
                ||| deposits[tx].state == DisputeState::Disputed && d2[tx].state
                    == DisputeState::Settled
            }
            &&& deposits[tx].state == DisputeState::Settled ==> d2[tx] == deposits[tx]
        }),
{
}

/// A deposit that carries an amount is credited unless its client's account
/// is locked, whatever the account's held or available funds: available and
/// total grow by the amount (a client's first deposit opens the account at
/// zero), held and the lock are kept, and the deposit is recorded as never
/// disputed. Nothing else changes. A deposit without an amount, or for a
/// locked account, changes nothing. A first deposit opens an unlocked account
/// of that client with every balance zero.
pub proof fn lemma_deposit_rule(deposits: Deposits, accounts: Accounts, e: Entry)
    requires
        e.tx_type == TxType::Deposit,
    ensures
        ({
            let c = e.client@;
            let credited = e.amount is Some && !(accounts.contains_key(c) && accounts[c].locked);
            let acc = if accounts.contains_key(c) {
                accounts[c]
            } else {
                Account::fresh(e.client)
            };
            let x = e.amount->0;
            &&& !accounts.contains_key(c) ==> {
                &&& acc.client == e.client
                &&& acc.available.units() == 0
                &&& acc.held.units() == 0
                &&& acc.total.units() == 0
                &&& !acc.locked
            }
            &&& applies(deposits, accounts, e) == credited
            &&& credited ==> step(deposits, accounts, e) == (
                deposits.insert(
                    e.tx@,
                    DepositRecord { client: e.client, amount: x, state: DisputeState::NeverDisputed },
                ),
                accounts.insert(
                    c,
                    Account {
                        client: acc.client,
                        available: plus(acc.available, x),
                        held: acc.held,
                        total: plus(acc.total, x),
                        locked: acc.locked,
                    },
                ),
            )
            &&& !credited ==> step(deposits, accounts, e) == (deposits, accounts)
        }),
{
    Amount::lemma_zero_units();
}

/// A withdrawal that carries an amount, for a client with an unlocked
/// account whose available funds cover the amount, is applied whatever the
/// account's held funds: available and total shrink by the amount, held and
/// the lock are kept, and the deposits are unchanged. Every other withdrawal
/// (no amount, no account, a locked account, or available funds short of the
/// amount) changes nothing.
pub proof fn lemma_withdrawal_rule(deposits: Deposits, accounts: Accounts, e: Entry)
    requires
        e.tx_type == TxType::Withdrawal,
    ensures
        ({
            let c = e.client@;
            let x = e.amount->0;
            let covered = e.amount is Some && accounts.contains_key(c) && !accounts[c].locked
                && accounts[c].available.units() >= x.units();
            let acc = accounts[c];
            &&& applies(deposits, accounts, e) == covered
            &&& covered ==> step(deposits, accounts, e) == (
                deposits,
                accounts.insert(
                    c,
                    Account {
                        client: acc.client,
                        available: minus(acc.available, x),
                        held: acc.held,
                        total: minus(acc.total, x),
                        locked: acc.locked,
                    },
                ),
            )
            &&& !covered ==> step(deposits, accounts, e) == (deposits, accounts)
        }),
{
}

/// A dispute of a never-disputed deposit of the same client, whose unlocked
/// account has available funds covering the deposit's amount, is applied
/// whatever the account's held funds: the amount moves from available to
/// held, total and the lock are kept, and the deposit becomes disputed. Every
/// other dispute changes nothing.
pub proof fn lemma_dispute_rule(deposits: Deposits, accounts: Accounts, e: Entry)
    requires
        e.tx_type == TxType::Dispute,
    ensures
        ({
            let c = e.client@;
            let t = e.tx@;
            let x = deposits[t].amount;
            let acc = accounts[c];
            let valid = deposits.contains_key(t) && deposits[t].client@ == c
                && accounts.contains_key(c) && !acc.locked && deposits[t].state
                == DisputeState::NeverDisputed && acc.available.units() >= x.units();
            &&& applies(deposits, accounts, e) == valid
            &&& valid ==> step(deposits, accounts, e) == (
                deposits.insert(t, DepositRecord { state: DisputeState::Disputed, ..deposits[t] }),
                accounts.insert(
                    c,
                    Account {
                        client: acc.client,
                        available: minus(acc.available, x),
                        held: plus(acc.held, x),
                        total: acc.total,
                        locked: acc.locked,
                    },
                ),
            )
            &&& !valid ==> step(deposits, accounts, e) == (deposits, accounts)
        }),
{
}

/// A resolve or chargeback of a disputed deposit of the same client, whose
/// account is unlocked, is applied whatever the account's held and available
/// funds. A resolve moves the amount from held back to available and keeps
/// total and the lock; a chargeback takes the amount off held and total,
/// keeps available and locks the account. Either way the deposit becomes
/// settled. Every other resolve or chargeback (no such deposit, another
/// client's, a locked account, a deposit not under dispute) changes nothing.
pub proof fn lemma_settlement_rule(deposits: Deposits, accounts: Accounts, e: Entry)
    requires
        e.tx_type == TxType::Resolve || e.tx_type == TxType::Chargeback,
    ensures
        ({
            let c = e.client@;
            let t = e.tx@;
            let x = deposits[t].amount;
            let acc = accounts[c];
            let valid = deposits.contains_key(t) && deposits[t].client@ == c
                && accounts.contains_key(c) && !acc.locked && deposits[t].state
                == DisputeState::Disputed;
            let settled = deposits.insert(
                t,
                DepositRecord { state: DisputeState::Settled, ..deposits[t] },
            );
            &&& applies(deposits, accounts, e) == valid
            &&& valid && e.tx_type == TxType::Resolve ==> step(deposits, accounts, e) == (
                settled,
                accounts.insert(
                    c,
                    Account {
                        client: acc.client,
                        available: plus(acc.available, x),
                        held: minus(acc.held, x),
                        total: acc.total,
                        locked: acc.locked,
                    },
                ),
            )
            &&& valid && e.tx_type == TxType::Chargeback ==> step(deposits, accounts, e) == (
                settled,
                accounts.insert(
                    c,
                    Account {
                        client: acc.client,
                        available: acc.available,
                        held: minus(acc.held, x),
                        total: minus(acc.total, x),
                        locked: true,
                    },
                ),
            )
            &&& !valid ==> step(deposits, accounts, e) == (deposits, accounts)
        }),
{
}

/// Over a whole run from no deposits and no accounts whose arithmetic is
/// exact, every account's total is its available plus its held funds.
pub proof fn lemma_run_keeps_balance(entries: Seq<Entry>)
    requires
        run_fits(Map::empty(), Map::empty(), entries),
        run_exact(Map::empty(), Map::empty(), entries),
    ensures
        balanced(run_spec(Map::empty(), Map::empty(), entries).1),
    decreases entries.len(),
{
    if entries.len() > 0 {
        let prefix = entries.drop_last();
        lemma_run_keeps_balance(prefix);
        let (d, a) = run_spec(Map::empty(), Map::empty(), prefix);
        lemma_step_keeps_balance(d, a, entries.last());
    }
}

/// An entry that does not apply, given after a run, leaves the deposits and
/// the accounts as the run left them: a locked client's entry, a deposit or
/// withdrawal without an amount, a withdrawal for a client without an account
/// or above its available funds, a dispute, resolve or chargeback that refers
/// to no deposit of its client, to a deposit not in the state it acts on, or
/// (a dispute) to more than the available funds.
pub proof fn lemma_ignored_entry(
    deposits: Deposits,
    accounts: Accounts,
    entries: Seq<Entry>,
    e: Entry,
)
    requires
        !applies(run_spec(deposits, accounts, entries).0, run_spec(deposits, accounts, entries).1, e),
    ensures
        run_spec(deposits, accounts, entries.push(e)) == run_spec(deposits, accounts, entries),
{
    lemma_run_append(deposits, accounts, entries, e);
}

/// An entry that applies, given after a run whose arithmetic is exact, changes
/// its client's account alone, as follows, with `acc` the account before (a
/// fresh one for a client's first deposit) and `x` the entry's amount, or for
/// a dispute, resolve or chargeback the amount of the deposit it refers to: a
/// deposit adds `x` to available and total and records the deposit; a
/// withdrawal takes `x` from available and total; a dispute moves `x` from
/// available to held and marks the deposit disputed; a resolve moves it back
/// and marks the deposit settled; a chargeback takes `x` from held and total,
/// locks the account and marks the deposit settled.
pub proof fn lemma_applied_entry(
    deposits: Deposits,
    accounts: Accounts,
    entries: Seq<Entry>,
    e: Entry,
)
    requires
        run_exact(deposits, accounts, entries.push(e)),
        fits(run_spec(deposits, accounts, entries).0, run_spec(deposits, accounts, entries).1, e),
        applies(run_spec(deposits, accounts, entries).0, run_spec(deposits, accounts, entries).1, e),
    ensures
        ({
            let (d, a) = run_spec(deposits, accounts, entries);
            let (d2, a2) = run_spec(deposits, accounts, entries.push(e));
            let c = e.client@;
            let acc = deposit_target(a, e.client);
            let x = if e.tx_type == TxType::Deposit || e.tx_type == TxType::Withdrawal {
                e.amount->0
            } else {
                d[e.tx@].amount
            };
            &&& a2.dom() == a.dom().insert(c)
            &&& forall|k: u16| k != c ==> #[trigger] a2.get(k) == a.get(k)
            &&& a2[c].client == acc.client
            &&& match e.tx_type {
                TxType::Deposit => {
                    &&& a2[c].available.units() == acc.available.units() + x.units()
                    &&& a2[c].held == acc.held
                    &&& a2[c].total.units() == acc.total.units() + x.units()
                    &&& a2[c].locked == acc.locked
                    &&& d2 == d.insert(
                        e.tx@,
                        DepositRecord { client: e.client, amount: x, state: DisputeState::NeverDisputed },
                    )
                },
                TxType::Withdrawal => {
                    &&& a2[c].available.units() == acc.available.units() - x.units()
                    &&& a2[c].held == acc.held
                    &&& a2[c].total.units() == acc.total.units() - x.units()
                    &&& a2[c].locked == acc.locked
                    &&& d2 == d
                },
                TxType::Dispute => {
                    &&& a2[c].available.units() == acc.available.units() - x.units()
                    &&& a2[c].held.units() == acc.held.units() + x.units()
                    &&& a2[c].total == acc.total
                    &&& a2[c].locked == acc.locked
                    &&& d2 == with_state(d, e.tx@, DisputeState::Disputed)
                },
                TxType::Resolve => {
                    &&& a2[c].available.units() == acc.available.units() + x.units()
                    &&& a2[c].held.units() == acc.held.units() - x.units()
                    &&& a2[c].total == acc.total
                    &&& a2[c].locked == acc.locked
                    &&& d2 == with_state(d, e.tx@, DisputeState::Settled)
                },
                TxType::Chargeback => {
                    &&& a2[c].available == acc.available
                    &&& a2[c].held.units() == acc.held.units() - x.units()
                    &&& a2[c].total.units() == acc.total.units() - x.units()
                    &&& a2[c].locked
                    &&& d2 == with_state(d, e.tx@, DisputeState::Settled)
                },
            }
        }),
{
    lemma_run_append(deposits, accounts, entries, e);
    assert(entries.push(e).drop_last() =~= entries);
    let (d, a) = run_spec(deposits, accounts, entries);
    let a2 = run_spec(deposits, accounts, entries.push(e)).1;
    assert(step_exact(d, a, e));
    assert(a2.dom() =~= a.dom().insert(e.client@));
}

/// Over a whole run from no deposits and no accounts, with deposits of
/// non-negative amounts: every account's total is its available plus held
/// funds, and no balance is negative.
pub proof fn lemma_run_keeps_invariants(entries: Seq<Entry>)
    requires
        run_fits(Map::empty(), Map::empty(), entries),
        run_exact(Map::empty(), Map::empty(), entries),
        forall|i: int|
            0 <= i < entries.len() && #[trigger] entries[i].tx_type == TxType::Deposit
                && entries[i].amount is Some ==> entries[i].amount->0.units() >= 0,
    ensures
        balanced(run_spec(Map::empty(), Map::empty(), entries).1),
        solvent(run_spec(Map::empty(), Map::empty(), entries).0, run_spec(Map::empty(), Map::empty(), entries).1),
    decreases entries.len(),
{
    if entries.len() == 0 {
        assert(Map::<u32, DepositRecord>::empty().dom() =~= Set::empty());
    } else {
        let prefix = entries.drop_last();
        assert forall|i: int|
            0 <= i < prefix.len() && #[trigger] prefix[i].tx_type == TxType::Deposit
                && prefix[i].amount is Some implies prefix[i].amount->0.units() >= 0 by {
            assert(prefix[i] == entries[i]);
        }
        lemma_run_keeps_invariants(prefix);
        let (d, a) = run_spec(Map::empty(), Map::empty(), prefix);
        let last = entries.last();
        assert(last == entries[entries.len() - 1]);
        lemma_step_keeps_balance(d, a, last);
        lemma_step_keeps_solvency(d, a, last);
    }
}

} // verus!
