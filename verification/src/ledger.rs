//! The account store and transfer engine.
//!
//! A [`Ledger`] holds every account with its current balance, and the
//! append-only sequence of committed transfers. All mutation goes through
//! the engine, which validates a transfer, checks funds, moves the value and
//! appends the record as one indivisible step on `&mut self`: a caller that
//! serialises its calls (a lock around the store, or one writer) gets
//! serialisable behaviour for free, and no caller ever observes a state that
//! reflects part of a transfer.

use vstd::prelude::*;

use crate::errors::ApiError;
use crate::model::{Transaction, TransactionView, User, UserView};

verus! {

broadcast use vstd::seq_lib::group_to_multiset_ensures;

/// The mathematical value of a [`Ledger`]: the accounts in opening order and
/// the committed transfers in commit order.
pub ghost struct LedgerView {
    pub accounts: Seq<UserView>,
    pub transactions: Seq<TransactionView>,
}

// ---------------------------------------------------------------------------
// Lookup of accounts and transactions by identity
// ---------------------------------------------------------------------------

/// Whether some account is named `u`.
pub open spec fn has_user(accs: Seq<UserView>, u: Seq<char>) -> bool {
    exists|i: int| 0 <= i < accs.len() && accs[i].username == u
}

/// The index of the account named `u`; meaningful only when `has_user` holds
/// (and then unique, since usernames are distinct).
pub open spec fn user_index(accs: Seq<UserView>, u: Seq<char>) -> int {
    choose|i: int| 0 <= i < accs.len() && accs[i].username == u
}

/// The account named `u`.
pub open spec fn lookup_user(accs: Seq<UserView>, u: Seq<char>) -> UserView {
    accs[user_index(accs, u)]
}

/// The balance of the account named `u`, in minor units.
pub open spec fn balance_of(accs: Seq<UserView>, u: Seq<char>) -> u64 {
    lookup_user(accs, u).balance
}

/// Whether some account carries the surrogate identifier `id`.
pub open spec fn has_userid(accs: Seq<UserView>, id: u128) -> bool {
    exists|i: int| 0 <= i < accs.len() && accs[i].userid == id
}

/// Whether some committed transfer carries the identifier `id`.
pub open spec fn has_txn(ts: Seq<TransactionView>, id: u128) -> bool {
    exists|i: int| 0 <= i < ts.len() && ts[i].txn_id == id
}

/// The index of the transfer with identifier `id`; meaningful only when
/// `has_txn` holds (and then unique, since identifiers are never reused).
pub open spec fn txn_index(ts: Seq<TransactionView>, id: u128) -> int {
    choose|i: int| 0 <= i < ts.len() && ts[i].txn_id == id
}

/// The ledger entry with identifier `id`, if any.
pub open spec fn spec_fetch_txn(ts: Seq<TransactionView>, id: u128) -> Option<TransactionView> {
    if has_txn(ts, id) {
        Some(ts[txn_index(ts, id)])
    } else {
        None
    }
}

// ---------------------------------------------------------------------------
// The conserved quantity: the sum of all balances
// ---------------------------------------------------------------------------

/// The sum of all account balances, in minor units.
pub open spec fn total_balance(accs: Seq<UserView>) -> int
    decreases accs.len(),
{
    if accs.len() == 0 {
        0
    } else {
        total_balance(accs.drop_last()) + accs.last().balance
    }
}

// ---------------------------------------------------------------------------
// Well-formedness
// ---------------------------------------------------------------------------

/// Account identities are unique: both the username and the surrogate
/// identifier name at most one account.
pub open spec fn accounts_wf(accs: Seq<UserView>) -> bool {
    forall|i: int, j: int|
        0 <= i < j < accs.len() ==> accs[i].username != accs[j].username && accs[i].userid != accs[
            j
        ].userid
}

/// A transfer record that could have been committed against `accs`: a
/// strictly positive amount between two distinct, existing accounts.
pub open spec fn txn_wf(t: TransactionView, accs: Seq<UserView>) -> bool {
    &&& t.amount > 0
    &&& t.from_username != t.to_username
    &&& has_user(accs, t.from_username)
    &&& has_user(accs, t.to_username)
}

/// Every ledger entry references existing accounts, and no transaction
/// identifier is ever reused.
pub open spec fn txns_wf(ts: Seq<TransactionView>, accs: Seq<UserView>) -> bool {
    &&& forall|i: int| 0 <= i < ts.len() ==> txn_wf(#[trigger] ts[i], accs)
    &&& forall|i: int, j: int| 0 <= i < j < ts.len() ==> ts[i].txn_id != ts[j].txn_id
}

/// The ledger invariant: distinct identities, well-formed entries, and a
/// total money supply that the balance type can represent (which is what
/// makes every credit free of overflow, since transfers conserve the total).
pub open spec fn inv(l: LedgerView) -> bool {
    &&& accounts_wf(l.accounts)
    &&& txns_wf(l.transactions, l.accounts)
    &&& total_balance(l.accounts) <= u64::MAX
}

// ---------------------------------------------------------------------------
// Lemmas about the total
// ---------------------------------------------------------------------------

/// The total of balances is never negative.
pub proof fn lemma_total_nonneg(accs: Seq<UserView>)
    ensures
        total_balance(accs) >= 0,
    decreases accs.len(),
{
    if accs.len() > 0 {
        lemma_total_nonneg(accs.drop_last());
    }
}

/// Replacing one account changes the total by exactly the change of that
/// account's balance.
pub proof fn lemma_total_update(accs: Seq<UserView>, i: int, v: UserView)
    requires
        0 <= i < accs.len(),
    ensures
        total_balance(accs.update(i, v)) == total_balance(accs) - accs[i].balance + v.balance,
    decreases accs.len(),
{
    let updated = accs.update(i, v);
    if i == accs.len() - 1 {
        assert(updated.drop_last() =~= accs.drop_last());
    } else {
        assert(updated.drop_last() =~= accs.drop_last().update(i, v));
        assert(updated.last() == accs.last());
        lemma_total_update(accs.drop_last(), i, v);
    }
}

/// Appending one account adds exactly its balance to the total.
pub proof fn lemma_total_push(accs: Seq<UserView>, v: UserView)
    ensures
        total_balance(accs.push(v)) == total_balance(accs) + v.balance,
{
    assert(accs.push(v).drop_last() =~= accs);
}

/// A prefix of the accounts never sums to more than the whole.
pub proof fn lemma_total_take_le(accs: Seq<UserView>, k: int)
    requires
        0 <= k <= accs.len(),
    ensures
        total_balance(accs.take(k)) <= total_balance(accs),
    decreases accs.len(),
{
    if k == accs.len() {
        assert(accs.take(k) =~= accs);
    } else {
        assert(accs.drop_last().take(k) =~= accs.take(k));
        lemma_total_take_le(accs.drop_last(), k);
    }
}

/// No single balance exceeds the total.
pub proof fn lemma_balance_le_total(accs: Seq<UserView>, i: int)
    requires
        0 <= i < accs.len(),
    ensures
        accs[i].balance <= total_balance(accs),
    decreases accs.len(),
{
    lemma_total_nonneg(accs.drop_last());
    if i < accs.len() - 1 {
        lemma_balance_le_total(accs.drop_last(), i);
    }
}

// ---------------------------------------------------------------------------
// Listing the history of one account
// ---------------------------------------------------------------------------

/// Whether the account named `u` is a party to the transfer, as sender or
/// receiver.
pub open spec fn involves(t: TransactionView, u: Seq<char>) -> bool {
    t.from_username == u || t.to_username == u
}

/// The committed transfers that the account named `u` is a party to, in
/// commit order.
pub open spec fn matching_txns(ts: Seq<TransactionView>, u: Seq<char>) -> Seq<TransactionView> {
    ts.filter(|t: TransactionView| involves(t, u))
}

/// Ordered by time, newest first.
pub open spec fn time_sorted_desc(ts: Seq<TransactionView>) -> bool {
    forall|i: int, j: int| 0 <= i <= j < ts.len() ==> #[trigger] ts[i].time >= #[trigger] ts[j].time
}

/// How a filter grows with its input, one element at a time.
proof fn lemma_filter_push<A>(s: Seq<A>, x: A, pred: spec_fn(A) -> bool)
    ensures
        s.push(x).filter(pred) == (if pred(x) {
            s.filter(pred).push(x)
        } else {
            s.filter(pred)
        }),
{
    assert(s.push(x).drop_last() =~= s);
    assert(s.push(x).last() == x);
    reveal_with_fuel(Seq::filter, 1);
}

// ---------------------------------------------------------------------------
// The transfer transition
// ---------------------------------------------------------------------------

/// The balances after moving `amount` from `from` to `to`: the sender is
/// debited, the receiver credited, everyone else untouched.
pub open spec fn spec_move_funds(
    accs: Seq<UserView>,
    from: Seq<char>,
    to: Seq<char>,
    amount: u64,
) -> Seq<UserView> {
    let fi = user_index(accs, from);
    let debited = accs.update(
        fi,
        UserView { balance: (accs[fi].balance - amount) as u64, ..accs[fi] },
    );
    let ti = user_index(debited, to);
    debited.update(
        ti,
        UserView { balance: (debited[ti].balance + amount) as u64, ..debited[ti] },
    )
}

/// What one call of the transfer engine does: either the validated new
/// ledger state, or the error that rejects the request, checked in this
/// order: self-transfer, non-positive amount, unknown account, reused
/// transaction identifier, insufficient funds.
pub open spec fn spec_transfer(l: LedgerView, t: TransactionView) -> Result<LedgerView, ApiError> {
    if t.from_username == t.to_username {
        Err(ApiError::InvalidTransfer)
    } else if t.amount == 0 {
        Err(ApiError::InvalidAmount)
    } else if !has_user(l.accounts, t.from_username) || !has_user(l.accounts, t.to_username) {
        Err(ApiError::UserNotFound)
    } else if has_txn(l.transactions, t.txn_id) {
        Err(ApiError::Conflict)
    } else if balance_of(l.accounts, t.from_username) < t.amount {
        Err(ApiError::BalanceLow)
    } else {
        Ok(
            LedgerView {
                accounts: spec_move_funds(l.accounts, t.from_username, t.to_username, t.amount),
                transactions: l.transactions.push(t),
            },
        )
    }
}

/// Everything a successful movement of funds does and leaves alone: the
/// sender loses exactly `amount`, the receiver gains exactly `amount`, no
/// other account changes, identities stay where they were, and the total is
/// conserved.
pub proof fn lemma_move_funds(accs: Seq<UserView>, from: Seq<char>, to: Seq<char>, amount: u64)
    requires
        accounts_wf(accs),
        total_balance(accs) <= u64::MAX,
        has_user(accs, from),
        has_user(accs, to),
        from != to,
        balance_of(accs, from) >= amount,
    ensures
        ({
            let r = spec_move_funds(accs, from, to, amount);
            let fi = user_index(accs, from);
            let ti = user_index(accs, to);
            &&& r.len() == accs.len()
            &&& accs[ti].balance + amount <= u64::MAX
            &&& r == accs.update(
                fi,
                UserView { balance: (accs[fi].balance - amount) as u64, ..accs[fi] },
            ).update(ti, UserView { balance: (accs[ti].balance + amount) as u64, ..accs[ti] })
            &&& forall|i: int|
                0 <= i < accs.len() ==> #[trigger] r[i].username == accs[i].username && r[
                    i
                ].userid == accs[i].userid
            &&& forall|i: int|
                0 <= i < accs.len() && i != fi && i != ti ==> #[trigger] r[i] == accs[i]
            &&& accounts_wf(r)
            &&& forall|u: Seq<char>| #[trigger] has_user(r, u) <==> has_user(accs, u)
            &&& forall|u: Seq<char>|
                has_user(accs, u) ==> #[trigger] user_index(r, u) == user_index(accs, u)
            &&& balance_of(r, from) == balance_of(accs, from) - amount
            &&& balance_of(r, to) == balance_of(accs, to) + amount
            &&& total_balance(r) == total_balance(accs)
        }),
{
    let fi = user_index(accs, from);
    let ti = user_index(accs, to);
    assert(0 <= fi < accs.len() && accs[fi].username == from);
    assert(0 <= ti < accs.len() && accs[ti].username == to);
    assert(fi != ti);
    let debited = accs.update(
        fi,
        UserView { balance: (accs[fi].balance - amount) as u64, ..accs[fi] },
    );
    lemma_total_update(accs, fi, debited[fi]);
    // The receiver's balance cannot exceed what is left of the total, so the
    // credit cannot overflow.
    lemma_balance_le_total(debited, ti);
    lemma_total_nonneg(debited);
    assert(user_index(debited, to) == ti) by {
        let w = user_index(debited, to);
        assert(debited[ti].username == to);
        assert(0 <= w < debited.len() && debited[w].username == to);
    }
    let r = spec_move_funds(accs, from, to, amount);
    lemma_total_update(debited, ti, r[ti]);
    assert forall|u: Seq<char>| #[trigger] has_user(r, u) <==> has_user(accs, u) by {
        if has_user(accs, u) {
            let w = user_index(accs, u);
            assert(r[w].username == u);
        }
        if has_user(r, u) {
            let w = choose|i: int| 0 <= i < r.len() && r[i].username == u;
            assert(accs[w].username == u);
        }
    }
    assert forall|u: Seq<char>|
        has_user(accs, u) implies #[trigger] user_index(r, u) == user_index(accs, u) by {
        let w = user_index(accs, u);
        assert(r[w].username == u);
        let w2 = user_index(r, u);
        assert(0 <= w2 < r.len() && r[w2].username == u);
        assert(accs[w2].username == u);
    }
}

// ---------------------------------------------------------------------------
// The store
// ---------------------------------------------------------------------------

/// The account store and ledger, the sole owner of balances and records.
pub struct Ledger {
    accounts: Vec<User>,
    transactions: Vec<Transaction>,
}

/// The views of a sequence of accounts.
pub open spec fn account_views(accs: Seq<User>) -> Seq<UserView> {
    accs.map_values(|u: User| u@)
}

/// The views of a sequence of transfer records.
pub open spec fn txn_views(ts: Seq<Transaction>) -> Seq<TransactionView> {
    ts.map_values(|t: Transaction| t@)
}

impl View for Ledger {
    type V = LedgerView;

    closed spec fn view(&self) -> LedgerView {
        LedgerView {
            accounts: account_views(self.accounts@),
            transactions: txn_views(self.transactions@),
        }
    }
}

impl Ledger {
    #[verifier::type_invariant]
    spec fn wf(&self) -> bool {
        inv(self@)
    }

    /// An empty store: no accounts, no history.
    pub fn new() -> (l: Ledger)
        ensures
            l@.accounts.len() == 0,
            l@.transactions.len() == 0,
    {
        let l = Ledger { accounts: Vec::new(), transactions: Vec::new() };
        proof {
            assert(l@.accounts =~= Seq::<UserView>::empty());
            assert(l@.transactions =~= Seq::<TransactionView>::empty());
        }
        l
    }

    /// The index of the account named `username`, if any.
    fn find_account(&self, username: &str) -> (r: Option<usize>)
        ensures
            match r {
                Some(i) => {
                    &&& 0 <= i < self@.accounts.len()
                    &&& self@.accounts[i as int].username == username@
                    &&& i == user_index(self@.accounts, username@)
                },
                None => !has_user(self@.accounts, username@),
            },
    {
        proof {
            use_type_invariant(self);
        }
        let key: String = username.to_owned();
        let n = self.accounts.len();
        let mut i: usize = 0;
        while i < n
            invariant
                n == self@.accounts.len(),
                0 <= i <= n,
                accounts_wf(self@.accounts),
                key@ == username@,
                forall|j: int| 0 <= j < i ==> self@.accounts[j].username != username@,
            decreases n - i,
        {
            if self.accounts[i].username == key {
                proof {
                    assert(self@.accounts[i as int].username == username@);
                    let w = user_index(self@.accounts, username@);
                    assert(0 <= w < self@.accounts.len() && self@.accounts[w].username
                        == username@);
                    assert(w == i as int);
                }
                return Some(i);
            }
            i += 1;
        }
        None
    }

    /// Whether some account already carries the surrogate identifier.
    fn userid_taken(&self, userid: u128) -> (b: bool)
        ensures
            b == has_userid(self@.accounts, userid),
    {
        let n = self.accounts.len();
        let mut i: usize = 0;
        while i < n
            invariant
                n == self@.accounts.len(),
                0 <= i <= n,
                forall|j: int| 0 <= j < i ==> self@.accounts[j].userid != userid,
            decreases n - i,
        {
            if self.accounts[i].userid == userid {
                proof {
                    assert(self@.accounts[i as int].userid == userid);
                }
                return true;
            }
            i += 1;
        }
        false
    }

    /// Opens an account. Fails with `Conflict` when the username or the
    /// surrogate identifier is already taken, and with `Validation` when
    /// the opening balance would push the total money supply beyond what
    /// the store can represent; the store is unchanged on any failure.
    pub fn new_user(&mut self, user: User) -> (r: Result<(), ApiError>)
        ensures
            ({
                let l = old(self)@;
                let taken = has_user(l.accounts, user@.username) || has_userid(
                    l.accounts,
                    user@.userid,
                );
                let too_much = total_balance(l.accounts) + user@.balance > u64::MAX;
                match r {
                    Ok(()) => {
                        &&& !taken
                        &&& !too_much
                        &&& final(self)@.accounts == l.accounts.push(user@)
                        &&& final(self)@.transactions == l.transactions
                    },
                    Err(e) => {
                        &&& final(self)@ == l
                        &&& taken || too_much
                        &&& e == (if taken {
                            ApiError::Conflict
                        } else {
                            ApiError::Validation
                        })
                    },
                }
            }),
    {
        proof {
            use_type_invariant(&*self);
        }
        if self.find_account(user.username.as_str()).is_some() {
            return Err(ApiError::Conflict);
        }
        if self.userid_taken(user.userid) {
            return Err(ApiError::Conflict);
        }
        let total = self.total_balance_exec();
        if user.balance > u64::MAX - total {
            return Err(ApiError::Validation);
        }
        let ghost old_accounts = self@.accounts;
        let ghost old_txns = self@.transactions;
        let ghost uv = user@;
        proof {
            lemma_total_push(old_accounts, uv);
            assert(txn_views(Seq::<Transaction>::empty()) =~= Seq::<TransactionView>::empty());
            assert forall|i: int|
                0 <= i < old_txns.len() implies txn_wf(
                #[trigger] old_txns[i],
                old_accounts.push(uv),
            ) by {
                let fw = user_index(old_accounts, old_txns[i].from_username);
                let tw = user_index(old_accounts, old_txns[i].to_username);
                assert(old_accounts.push(uv)[fw].username == old_txns[i].from_username);
                assert(old_accounts.push(uv)[tw].username == old_txns[i].to_username);
            }
        }
        let mut accounts: Vec<User> = Vec::new();
        let mut transactions: Vec<Transaction> = Vec::new();
        proof {
            assert(account_views(accounts@) =~= Seq::<UserView>::empty());
        }
        std::mem::swap(&mut transactions, &mut self.transactions);
        std::mem::swap(&mut accounts, &mut self.accounts);
        accounts.push(user);
        proof {
            assert(account_views(accounts@) =~= old_accounts.push(uv));
        }
        self.accounts = accounts;
        self.transactions = transactions;
        proof {
            assert(self@.accounts =~= old_accounts.push(uv));
            assert(self@.transactions == old_txns);
        }
        Ok(())
    }

    /// The index of the ledger entry carrying `txn_id`, if any.
    fn find_txn(&self, txn_id: u128) -> (r: Option<usize>)
        ensures
            match r {
                Some(i) => {
                    &&& 0 <= i < self@.transactions.len()
                    &&& self@.transactions[i as int].txn_id == txn_id
                    &&& i == txn_index(self@.transactions, txn_id)
                },
                None => !has_txn(self@.transactions, txn_id),
            },
    {
        proof {
            use_type_invariant(self);
        }
        let n = self.transactions.len();
        let mut i: usize = 0;
        while i < n
            invariant
                n == self@.transactions.len(),
                0 <= i <= n,
                txns_wf(self@.transactions, self@.accounts),
                forall|j: int| 0 <= j < i ==> self@.transactions[j].txn_id != txn_id,
            decreases n - i,
        {
            if self.transactions[i].txn_id == txn_id {
                proof {
                    assert(self@.transactions[i as int].txn_id == txn_id);
                    assert(has_txn(self@.transactions, txn_id));
                    let w = txn_index(self@.transactions, txn_id);
                    assert(0 <= w < self@.transactions.len() && self@.transactions[w].txn_id
                        == txn_id);
                    assert(w == i as int);
                }
                return Some(i);
            }
            i += 1;
        }
        None
    }

    /// Executes one transfer as an indivisible step: validates the request,
    /// checks funds, debits the sender, credits the receiver and appends the
    /// ledger entry — or rejects it with the matching error and leaves the
    /// store exactly as it was. [`spec_transfer`] is the whole story.
    pub fn insert_transaction(&mut self, txn: Transaction) -> (r: Result<(), ApiError>)
        ensures
            ({
                let step = spec_transfer(old(self)@, txn@);
                match r {
                    Ok(()) => step == Ok::<LedgerView, ApiError>(final(self)@),
                    Err(e) => step == Err::<LedgerView, ApiError>(e) && final(self)@ == old(
                        self,
                    )@,
                }
            }),
    {
        proof {
            use_type_invariant(&*self);
        }
        if txn.from_username == txn.to_username {
            return Err(ApiError::InvalidTransfer);
        }
        if txn.amount == 0 {
            return Err(ApiError::InvalidAmount);
        }
        let from_idx = match self.find_account(txn.from_username.as_str()) {
            Some(i) => i,
            None => {
                return Err(ApiError::UserNotFound);
            },
        };
        let to_idx = match self.find_account(txn.to_username.as_str()) {
            Some(i) => i,
            None => {
                return Err(ApiError::UserNotFound);
            },
        };
        if self.find_txn(txn.txn_id).is_some() {
            return Err(ApiError::Conflict);
        }
        let from_balance = self.accounts[from_idx].balance;
        if from_balance < txn.amount {
            return Err(ApiError::BalanceLow);
        }
        let ghost old_accounts = self@.accounts;
        let ghost old_txns = self@.transactions;
        let ghost tv = txn@;
        proof {
            lemma_move_funds(old_accounts, tv.from_username, tv.to_username, tv.amount);
        }
        let mut accounts: Vec<User> = Vec::new();
        let mut transactions: Vec<Transaction> = Vec::new();
        proof {
            assert(account_views(accounts@) =~= Seq::<UserView>::empty());
            assert(txn_views(transactions@) =~= Seq::<TransactionView>::empty());
        }
        std::mem::swap(&mut transactions, &mut self.transactions);
        std::mem::swap(&mut accounts, &mut self.accounts);
        let to_balance = accounts[to_idx].balance;
        accounts[from_idx].balance = from_balance - txn.amount;
        accounts[to_idx].balance = to_balance + txn.amount;
        transactions.push(txn);
        let ghost new_accounts = spec_move_funds(old_accounts, tv.from_username, tv.to_username,
            tv.amount);
        proof {
            assert(account_views(accounts@) =~= new_accounts);
            assert(txn_views(transactions@) =~= old_txns.push(tv));
            assert forall|i: int|
                0 <= i < old_txns.len() implies txn_wf(
                #[trigger] old_txns.push(tv)[i],
                new_accounts,
            ) by {
                assert(old_txns.push(tv)[i] == old_txns[i]);
                assert(txn_wf(old_txns[i], old_accounts));
            }
        }
        self.accounts = accounts;
        self.transactions = transactions;
        proof {
            assert(self@.accounts =~= new_accounts);
            assert(self@.transactions =~= old_txns.push(tv));
        }
        Ok(())
    }

    /// The account named `username` with its stored credentials, for the
    /// login path; the latest committed state, never stale.
    pub fn login(&self, username: &str) -> (r: Option<User>)
        ensures
            match r {
                Some(u) => has_user(self@.accounts, username@) && u@ == lookup_user(
                    self@.accounts,
                    username@,
                ),
                None => !has_user(self@.accounts, username@),
            },
    {
        match self.find_account(username) {
            Some(i) => Some(self.accounts[i].clone()),
            None => None,
        }
    }

    /// The profile of the account named `username`: the same point read as
    /// [`Ledger::login`].
    pub fn fetch_profile(&self, username: &str) -> (r: Option<User>)
        ensures
            match r {
                Some(u) => has_user(self@.accounts, username@) && u@ == lookup_user(
                    self@.accounts,
                    username@,
                ),
                None => !has_user(self@.accounts, username@),
            },
    {
        self.login(username)
    }

    /// The current balance of the account named `username`, in minor units.
    pub fn fetch_balance(&self, username: &str) -> (r: Option<u64>)
        ensures
            match r {
                Some(b) => has_user(self@.accounts, username@) && b == balance_of(
                    self@.accounts,
                    username@,
                ),
                None => !has_user(self@.accounts, username@),
            },
    {
        match self.find_account(username) {
            Some(i) => Some(self.accounts[i].balance),
            None => None,
        }
    }

    /// The ledger entry committed under `txn_id`, if any. Entries are
    /// immutable, so the result is a function of the ledger state alone:
    /// two reads of an unchanged ledger return the same record.
    pub fn fetch_transaction(&self, txn_id: u128) -> (r: Option<Transaction>)
        ensures
            match r {
                Some(t) => spec_fetch_txn(self@.transactions, txn_id) == Some(t@),
                None => spec_fetch_txn(self@.transactions, txn_id) is None,
            },
    {
        match self.find_txn(txn_id) {
            Some(i) => Some(self.transactions[i].clone()),
            None => None,
        }
    }

    /// Every committed transfer the account named `username` is a party to,
    /// newest first, from a read-consistent snapshot: the same entries that
    /// `matching_txns` picks out of the ledger, ordered by time descending.
    pub fn fetch_transactions(&self, username: &str) -> (r: Vec<Transaction>)
        ensures
            time_sorted_desc(txn_views(r@)),
            txn_views(r@).to_multiset() == matching_txns(
                self@.transactions,
                username@,
            ).to_multiset(),
    {
        proof {
            use_type_invariant(self);
        }
        let key: String = username.to_owned();
        let ghost pred = |t: TransactionView| involves(t, username@);
        let n = self.transactions.len();
        let mut out: Vec<Transaction> = Vec::new();
        proof {
            assert(txn_views(out@) =~= Seq::<TransactionView>::empty());
            assert(self@.transactions.take(0).filter(pred) =~= Seq::<TransactionView>::empty());
        }
        let mut k: usize = 0;
        while k < n
            invariant
                n == self@.transactions.len(),
                0 <= k <= n,
                key@ == username@,
                pred == (|t: TransactionView| involves(t, username@)),
                time_sorted_desc(txn_views(out@)),
                txn_views(out@).to_multiset() == self@.transactions.take(k as int).filter(
                    pred,
                ).to_multiset(),
            decreases n - k,
        {
            let ghost old_out = txn_views(out@);
            let t = &self.transactions[k];
            let matched = t.from_username == key || t.to_username == key;
            proof {
                assert(self@.transactions.take(k + 1) =~= self@.transactions.take(
                    k as int,
                ).push(t@));
                lemma_filter_push(self@.transactions.take(k as int), t@, pred);
            }
            if matched {
                let m = out.len();
                let mut j: usize = 0;
                while j < m && out[j].time >= t.time
                    invariant
                        0 <= j <= m,
                        m == out.len(),
                        t == &self.transactions[k as int],
                        forall|q: int| 0 <= q < j ==> txn_views(out@)[q].time >= t@.time,
                    decreases m - j,
                {
                    j += 1;
                }
                out.insert(j, t.clone());
                proof {
                    assert(txn_views(out@) =~= old_out.insert(j as int, t@));
                    assert forall|q1: int, q2: int|
                        0 <= q1 <= q2 < txn_views(out@).len() implies txn_views(out@)[q1].time
                        >= txn_views(out@)[q2].time by {
                        let nv = txn_views(out@);
                        if q2 == j {
                            if q1 < j {
                                assert(nv[q1] == old_out[q1]);
                            }
                        } else if q2 > j {
                            assert(nv[q2] == old_out[q2 - 1]);
                            if j < m {
                                assert(old_out[j as int].time < t@.time);
                                assert(old_out[q2 - 1].time <= old_out[j as int].time);
                            }
                        }
                    }
                }
            }
            k += 1;
        }
        proof {
            assert(self@.transactions.take(n as int) =~= self@.transactions);
        }
        out
    }

    /// The sum of all balances; fits in the balance type by the store's
    /// invariant.
    fn total_balance_exec(&self) -> (t: u64)
        ensures
            t == total_balance(self@.accounts),
    {
        proof {
            use_type_invariant(self);
            lemma_total_nonneg(self@.accounts);
        }
        let n = self.accounts.len();
        let mut t: u64 = 0;
        let mut i: usize = 0;
        while i < n
            invariant
                n == self@.accounts.len(),
                0 <= i <= n,
                total_balance(self@.accounts) <= u64::MAX,
                t == total_balance(self@.accounts.take(i as int)),
                t <= u64::MAX,
            decreases n - i,
        {
            proof {
                assert(self@.accounts.take(i + 1).drop_last() =~= self@.accounts.take(i as int));
                assert(self@.accounts.take(i + 1).last() == self@.accounts[i as int]);
                lemma_total_take_le(self@.accounts, i + 1);
            }
            t = t + self.accounts[i].balance;
            i += 1;
        }
        proof {
            assert(self@.accounts.take(n as int) =~= self@.accounts);
        }
        t
    }
}

} // verus!
