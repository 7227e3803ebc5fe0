//! The global guarantees of the transfer engine, proved over the model that
//! [`crate::ledger::spec_transfer`] pins down: conservation of value across
//! any sequence of calls, non-negativity of every observable balance,
//! immutability of committed ledger entries, and the exact outcome of a
//! contended fan-out of transfers from one account.
//!
//! The engine runs on `&mut self`, so any interleaving of concurrent calls
//! the store admits is some serial order of calls; these laws quantify over
//! an arbitrary sequence of requests and therefore cover every such order.

use vstd::prelude::*;

use crate::errors::ApiError;
use crate::ledger::{
    balance_of, has_txn, has_user, inv, lemma_move_funds, lemma_total_nonneg, spec_fetch_txn,
    spec_transfer, total_balance, txn_index, user_index, LedgerView,
};
use crate::model::TransactionView;

verus! {

/// The ledger after the engine has processed each request in order; a
/// rejected request leaves the ledger exactly as it was.
pub open spec fn apply_transfers(l: LedgerView, ts: Seq<TransactionView>) -> LedgerView
    decreases ts.len(),
{
    if ts.len() == 0 {
        l
    } else {
        let prev = apply_transfers(l, ts.drop_last());
        match spec_transfer(prev, ts.last()) {
            Ok(next) => next,
            Err(_) => prev,
        }
    }
}

/// How many of the requests the engine accepts, processed in order.
pub open spec fn successful_transfers(l: LedgerView, ts: Seq<TransactionView>) -> int
    decreases ts.len(),
{
    if ts.len() == 0 {
        0
    } else {
        successful_transfers(l, ts.drop_last()) + (if spec_transfer(
            apply_transfers(l, ts.drop_last()),
            ts.last(),
        ) is Ok {
            1int
        } else {
            0int
        })
    }
}

/// What the engine answers to the `i`-th request of the sequence.
pub open spec fn step_of(l: LedgerView, ts: Seq<TransactionView>, i: int) -> Result<
    LedgerView,
    ApiError,
> {
    spec_transfer(apply_transfers(l, ts.take(i)), ts[i])
}

/// **Atomicity.** When the engine accepts a transfer, exactly one new
/// ledger entry exists — appended at the end, carrying the requested
/// amount, sender and receiver — and both balances reflect it: the sender
/// is down by exactly the amount, the receiver up by exactly the amount,
/// and no other account moves. The invariant and the total survive every
/// step. (That a rejected call changes nothing at all is part of
/// `insert_transaction`'s own contract: on every error the store equals
/// its old value.)
pub proof fn lemma_transfer_atomicity(l: LedgerView, t: TransactionView)
    requires
        inv(l),
    ensures
        spec_transfer(l, t) is Ok ==> ({
            let l2 = spec_transfer(l, t)->Ok_0;
            &&& inv(l2)
            &&& total_balance(l2.accounts) == total_balance(l.accounts)
            &&& l2.accounts.len() == l.accounts.len()
            &&& l2.transactions == l.transactions.push(t)
            &&& forall|u: Seq<char>| #[trigger] has_user(l2.accounts, u) <==> has_user(
                l.accounts,
                u,
            )
            &&& forall|u: Seq<char>|
                has_user(l.accounts, u) ==> #[trigger] user_index(l2.accounts, u) == user_index(
                    l.accounts,
                    u,
                )
            &&& balance_of(l2.accounts, t.from_username) == balance_of(
                l.accounts,
                t.from_username,
            ) - t.amount
            &&& balance_of(l2.accounts, t.to_username) == balance_of(l.accounts, t.to_username)
                + t.amount
            &&& forall|u: Seq<char>|
                has_user(l.accounts, u) && u != t.from_username && u != t.to_username
                    ==> #[trigger] balance_of(l2.accounts, u) == balance_of(l.accounts, u)
        }),
{
    if spec_transfer(l, t) is Ok {
        let l2 = spec_transfer(l, t)->Ok_0;
        lemma_move_funds(l.accounts, t.from_username, t.to_username, t.amount);
        assert forall|i: int|
            0 <= i < l2.transactions.len() implies crate::ledger::txn_wf(
            #[trigger] l2.transactions[i],
            l2.accounts,
        ) by {
            if i < l.transactions.len() {
                assert(l2.transactions[i] == l.transactions[i]);
                assert(crate::ledger::txn_wf(l.transactions[i], l.accounts));
            } else {
                assert(l2.transactions[i] == t);
            }
        }
        assert forall|u: Seq<char>|
            has_user(l.accounts, u) && u != t.from_username && u != t.to_username
                implies #[trigger] balance_of(l2.accounts, u) == balance_of(l.accounts, u) by {
            let w = user_index(l.accounts, u);
            assert(l.accounts[w].username == u);
            assert(w != user_index(l.accounts, t.from_username));
            assert(w != user_index(l.accounts, t.to_username));
        }
    }
}

/// **Conservation.** For any sequence of transfer requests — accepted or
/// rejected, in any order — the sum of all balances after equals the sum of
/// all balances before, and the ledger invariant still holds.
pub proof fn lemma_conservation(l: LedgerView, ts: Seq<TransactionView>)
    requires
        inv(l),
    ensures
        inv(apply_transfers(l, ts)),
        total_balance(apply_transfers(l, ts).accounts) == total_balance(l.accounts),
    decreases ts.len(),
{
    if ts.len() > 0 {
        lemma_conservation(l, ts.drop_last());
        lemma_transfer_atomicity(apply_transfers(l, ts.drop_last()), ts.last());
    }
}

/// **Non-negativity.** Balances are counted in unsigned minor units and the
/// engine debits only what the checked balance covers, so every account in
/// every observable ledger state holds a balance of at least zero.
pub proof fn lemma_balances_nonnegative(l: LedgerView)
    ensures
        forall|i: int| 0 <= i < l.accounts.len() ==> #[trigger] l.accounts[i].balance >= 0,
        total_balance(l.accounts) >= 0,
{
    lemma_total_nonneg(l.accounts);
}

/// A lookup by transaction identifier does not change when an entry with a
/// different identifier is appended.
proof fn lemma_fetch_stable_under_push(ts: Seq<TransactionView>, t: TransactionView, id: u128)
    requires
        has_txn(ts, id),
        t.txn_id != id,
        forall|i: int, j: int| 0 <= i < j < ts.len() ==> ts[i].txn_id != ts[j].txn_id,
    ensures
        spec_fetch_txn(ts.push(t), id) == spec_fetch_txn(ts, id),
{
    let w = txn_index(ts, id);
    assert(ts.push(t)[w].txn_id == id);
    assert(has_txn(ts.push(t), id));
    let w2 = txn_index(ts.push(t), id);
    assert(0 <= w2 < ts.push(t).len() && ts.push(t)[w2].txn_id == id);
    assert(w2 != ts.len());
    assert(ts[w2].txn_id == id);
}

/// **Idempotence of reads.** A committed ledger entry is immutable: whatever
/// the engine is asked to do afterwards, fetching the same transaction
/// identifier returns the identical record. (Two reads with no writes in
/// between return the same record already because the result is a function
/// of the ledger state alone.)
pub proof fn lemma_entries_immutable(l: LedgerView, ts: Seq<TransactionView>, id: u128)
    requires
        inv(l),
        spec_fetch_txn(l.transactions, id) is Some,
    ensures
        spec_fetch_txn(apply_transfers(l, ts).transactions, id) == spec_fetch_txn(
            l.transactions,
            id,
        ),
    decreases ts.len(),
{
    if ts.len() > 0 {
        lemma_entries_immutable(l, ts.drop_last(), id);
        lemma_conservation(l, ts.drop_last());
        let prev = apply_transfers(l, ts.drop_last());
        let t = ts.last();
        lemma_transfer_atomicity(prev, t);
        if spec_transfer(prev, t) is Ok {
            assert(t.txn_id != id) by {
                assert(!has_txn(prev.transactions, t.txn_id));
                let w = txn_index(prev.transactions, id);
                assert(prev.transactions[w].txn_id == id);
            }
            lemma_fetch_stable_under_push(prev.transactions, t, id);
        }
    }
}

/// A fan-out batch: every request moves the same amount `a` out of the one
/// account `x`, each to a distinct other existing account, under fresh,
/// pairwise-distinct transaction identifiers.
pub open spec fn fanout_reqs(
    l: LedgerView,
    ts: Seq<TransactionView>,
    x: Seq<char>,
    a: u64,
) -> bool {
    &&& a > 0
    &&& forall|i: int|
        0 <= i < ts.len() ==> {
            &&& (#[trigger] ts[i]).from_username == x
            &&& ts[i].amount == a
            &&& ts[i].to_username != x
            &&& has_user(l.accounts, ts[i].to_username)
            &&& !has_txn(l.transactions, ts[i].txn_id)
        }
    &&& forall|i: int, j: int| 0 <= i < j < ts.len() ==> ts[i].to_username != ts[j].to_username
    &&& forall|i: int, j: int| 0 <= i < j < ts.len() ==> ts[i].txn_id != ts[j].txn_id
}

/// How a fan-out of identical withdrawals drains the sender: after any
/// prefix, the number of accepted requests is the length of the prefix
/// capped at `balance / a`, the sender's balance has gone down by exactly
/// `a` per accepted request, and every other answer is `BalanceLow`.
#[verifier::rlimit(60)]
proof fn lemma_fanout_drain(l: LedgerView, ts: Seq<TransactionView>, x: Seq<char>, a: u64)
    requires
        inv(l),
        has_user(l.accounts, x),
        fanout_reqs(l, ts, x, a),
    ensures
        ({
            let fin = apply_transfers(l, ts);
            let b0 = balance_of(l.accounts, x) as int;
            let cap = b0 / (a as int);
            let s = successful_transfers(l, ts);
            &&& inv(fin)
            &&& s == (if ts.len() <= cap {
                ts.len() as int
            } else {
                cap
            })
            &&& forall|u: Seq<char>| #[trigger] has_user(fin.accounts, u) <==> has_user(
                l.accounts,
                u,
            )
            &&& balance_of(fin.accounts, x) == b0 - s * a
            &&& forall|id: u128|
                #[trigger] has_txn(fin.transactions, id) ==> has_txn(l.transactions, id)
                    || exists|i: int| 0 <= i < ts.len() && ts[i].txn_id == id
            &&& forall|i: int|
                0 <= i < ts.len() ==> ((#[trigger] step_of(l, ts, i)) is Ok <==> i < cap)
            &&& forall|i: int|
                cap <= i < ts.len() ==> #[trigger] step_of(l, ts, i) == Err::<
                    LedgerView,
                    ApiError,
                >(ApiError::BalanceLow)
        }),
    decreases ts.len(),
{
    broadcast use vstd::arithmetic::div_mod::lemma_fundamental_div_mod;
    broadcast use vstd::arithmetic::div_mod::lemma_mod_bound;

    let b0 = balance_of(l.accounts, x) as int;
    let cap = b0 / (a as int);
    assert(cap * a <= b0 && cap >= 0) by {
        assert(b0 == (a as int) * cap + b0 % (a as int));
        assert(0 <= b0 % (a as int) < a as int);
        assert(cap >= 0) by (nonlinear_arith)
            requires
                (a as int) * cap + b0 % (a as int) == b0,
                0 <= b0 % (a as int) < a as int,
                b0 >= 0,
                a > 0,
        ;
    }
    if ts.len() > 0 {
        let n = ts.len() as int;
        let ts2 = ts.drop_last();
        let t = ts.last();
        lemma_fanout_drain(l, ts2, x, a);
        let prev = apply_transfers(l, ts2);
        let s2 = successful_transfers(l, ts2);
        lemma_conservation(l, ts2);
        lemma_transfer_atomicity(prev, t);
        // The last request is fresh: its identifier is neither committed in
        // the starting ledger nor carried by an earlier request.
        assert(!has_txn(prev.transactions, t.txn_id)) by {
            if has_txn(prev.transactions, t.txn_id) {
                if !has_txn(l.transactions, t.txn_id) {
                    let i = choose|i: int|
                        0 <= i < ts2.len() && ts2[i].txn_id == t.txn_id;
                    assert(ts[i].txn_id == ts[n - 1].txn_id);
                }
            }
        }
        assert(spec_transfer(prev, t) is Ok <==> balance_of(prev.accounts, x) >= a);
        if n - 1 < cap {
            // The sender still covers the amount, so the last request lands.
            assert(s2 == n - 1);
            assert(b0 - (n - 1) * a >= a) by (nonlinear_arith)
                requires
                    n <= cap,
                    cap * a <= b0,
                    a > 0,
            ;
            assert(spec_transfer(prev, t) is Ok);
            assert(successful_transfers(l, ts) == n);
            assert(balance_of(apply_transfers(l, ts).accounts, x) == b0 - n * a) by {
                assert(balance_of(apply_transfers(l, ts).accounts, x) == b0 - (n - 1) * a - a);
                assert(b0 - (n - 1) * a - a == b0 - n * a) by (nonlinear_arith);
            }
        } else {
            // The sender is already drained below `a`: what is left is the
            // remainder of the opening balance, and the request bounces.
            assert(s2 == cap);
            assert(b0 - cap * a < a) by {
                assert(b0 == (a as int) * cap + b0 % (a as int));
                assert(b0 % (a as int) < a as int);
                assert((a as int) * cap == cap * (a as int)) by (nonlinear_arith);
            }
            assert(spec_transfer(prev, t) == Err::<LedgerView, ApiError>(ApiError::BalanceLow));
            assert(successful_transfers(l, ts) == cap);
        }
        // Each earlier answer is unchanged by the longer sequence.
        assert forall|i: int| 0 <= i < n - 1 implies #[trigger] step_of(l, ts, i) == step_of(
            l,
            ts2,
            i,
        ) by {
            assert(ts.take(i) =~= ts2.take(i));
            assert(ts[i] == ts2[i]);
        }
        assert(ts.take(n - 1) =~= ts2);
        assert(step_of(l, ts, n - 1) == spec_transfer(prev, t));
        let fin = apply_transfers(l, ts);
        assert forall|u: Seq<char>| #[trigger] has_user(fin.accounts, u) <==> has_user(
            l.accounts,
            u,
        ) by {
            assert(has_user(prev.accounts, u) <==> has_user(l.accounts, u));
        }
        assert forall|id: u128| #[trigger] has_txn(fin.transactions, id) implies has_txn(
            l.transactions,
            id,
        ) || exists|i: int| 0 <= i < ts.len() && ts[i].txn_id == id by {
            let w = choose|w: int|
                0 <= w < fin.transactions.len() && fin.transactions[w].txn_id == id;
            if w < prev.transactions.len() {
                assert(prev.transactions[w].txn_id == id);
                assert(has_txn(prev.transactions, id));
                if !has_txn(l.transactions, id) {
                    let i = choose|i: int| 0 <= i < ts2.len() && ts2[i].txn_id == id;
                    assert(ts[i].txn_id == id);
                }
            } else {
                assert(fin.transactions[w] == t);
                assert(ts[n - 1].txn_id == id);
            }
        }
        let s = successful_transfers(l, ts);
        assert(inv(fin));
        assert(s == (if ts.len() <= cap {
            ts.len() as int
        } else {
            cap
        }));
        assert(balance_of(fin.accounts, x) == b0 - s * a);
        assert forall|i: int|
            0 <= i < ts.len() implies ((#[trigger] step_of(l, ts, i)) is Ok <==> i < cap) by {
            if i < n - 1 {
                assert(step_of(l, ts, i) == step_of(l, ts2, i));
            }
        }
        assert forall|i: int|
            cap <= i < ts.len() implies #[trigger] step_of(l, ts, i) == Err::<
            LedgerView,
            ApiError,
        >(ApiError::BalanceLow) by {
            if i < n - 1 {
                assert(step_of(l, ts, i) == step_of(l, ts2, i));
            }
        }
    }
}

/// **Concurrency safety.** Run `N` transfers of the same amount `a` out of
/// one account `x` with opening balance `B`, each to a distinct other
/// account, where together they ask for more than the balance holds
/// (`N * a > B`): however the calls interleave, their net effect is that of
/// some serial order, and in every serial order exactly `B / a` of them
/// succeed, every other one is rejected with `BalanceLow`, and `x` is left
/// holding exactly `B - (B / a) * a`.
pub proof fn lemma_contended_fanout(l: LedgerView, ts: Seq<TransactionView>, x: Seq<char>, a: u64)
    requires
        inv(l),
        has_user(l.accounts, x),
        fanout_reqs(l, ts, x, a),
        ts.len() * a > balance_of(l.accounts, x),
    ensures
        ({
            let b0 = balance_of(l.accounts, x) as int;
            let cap = b0 / (a as int);
            &&& successful_transfers(l, ts) == cap
            &&& balance_of(apply_transfers(l, ts).accounts, x) == b0 - cap * a
            &&& forall|i: int|
                0 <= i < ts.len() ==> ((#[trigger] step_of(l, ts, i)) is Ok <==> i < cap)
            &&& forall|i: int|
                cap <= i < ts.len() ==> #[trigger] step_of(l, ts, i) == Err::<
                    LedgerView,
                    ApiError,
                >(ApiError::BalanceLow)
        }),
{
    lemma_fanout_drain(l, ts, x, a);
    let b0 = balance_of(l.accounts, x) as int;
    let cap = b0 / (a as int);
    assert(cap < ts.len()) by {
        broadcast use vstd::arithmetic::div_mod::lemma_fundamental_div_mod;
        broadcast use vstd::arithmetic::div_mod::lemma_mod_bound;

        assert(b0 == (a as int) * cap + b0 % (a as int));
        assert(0 <= b0 % (a as int) < a as int);
        assert(cap < ts.len()) by (nonlinear_arith)
            requires
                (a as int) * cap + b0 % (a as int) == b0,
                0 <= b0 % (a as int),
                ts.len() * a > b0,
                a > 0,
        ;
    }
}

} // verus!
