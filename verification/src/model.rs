//! The data model: accounts and transfer records, with their mathematical
//! views.
//!
//! Balances and amounts are integer minor units, so that addition and
//! subtraction are exact and value is neither created nor destroyed by
//! rounding. Account and transaction identifiers are plain 128-bit numbers;
//! commit times are plain signed timestamps.

use vstd::prelude::*;

verus! {

/// An account holder: a stable identity, profile data, the mutable balance,
/// and the stored password hash.
pub struct User {
    pub userid: u128,
    pub name: String,
    pub username: String,
    pub phno: String,
    pub address: String,
    /// The current balance, in minor units.
    pub balance: u64,
    pub password_hash: String,
}

/// The mathematical value of a [`User`].
pub ghost struct UserView {
    pub userid: u128,
    pub name: Seq<char>,
    pub username: Seq<char>,
    pub phno: Seq<char>,
    pub address: Seq<char>,
    pub balance: u64,
    pub password_hash: Seq<char>,
}

impl View for User {
    type V = UserView;

    open spec fn view(&self) -> UserView {
        UserView {
            userid: self.userid,
            name: self.name@,
            username: self.username@,
            phno: self.phno@,
            address: self.address@,
            balance: self.balance,
            password_hash: self.password_hash@,
        }
    }
}

impl Clone for User {
    fn clone(&self) -> (r: Self)
        ensures
            r == *self,
    {
        User {
            userid: self.userid,
            name: self.name.clone(),
            username: self.username.clone(),
            phno: self.phno.clone(),
            address: self.address.clone(),
            balance: self.balance,
            password_hash: self.password_hash.clone(),
        }
    }
}

/// One committed transfer: an immutable ledger entry.
pub struct Transaction {
    pub txn_id: u128,
    /// The amount moved, in minor units; strictly positive once committed.
    pub amount: u64,
    pub from_username: String,
    pub to_username: String,
    /// The commit time, as a plain timestamp.
    pub time: i64,
}

/// The mathematical value of a [`Transaction`].
pub ghost struct TransactionView {
    pub txn_id: u128,
    pub amount: u64,
    pub from_username: Seq<char>,
    pub to_username: Seq<char>,
    pub time: i64,
}

impl View for Transaction {
    type V = TransactionView;

    open spec fn view(&self) -> TransactionView {
        TransactionView {
            txn_id: self.txn_id,
            amount: self.amount,
            from_username: self.from_username@,
            to_username: self.to_username@,
            time: self.time,
        }
    }
}

impl Clone for Transaction {
    fn clone(&self) -> (r: Self)
        ensures
            r == *self,
    {
        Transaction {
            txn_id: self.txn_id,
            amount: self.amount,
            from_username: self.from_username.clone(),
            to_username: self.to_username.clone(),
            time: self.time,
        }
    }
}

/// What a caller submits to open an account: the profile data, the opening
/// balance in minor units, and the raw password (never stored).
pub struct SignupRequest {
    pub userid: u128,
    pub name: String,
    pub username: String,
    pub phno: String,
    pub address: String,
    pub balance: u64,
    pub password: String,
}

impl User {
    /// The account a signup opens, once the raw password has been replaced
    /// by its hash.
    pub fn from_signup(req: SignupRequest, password_hash: String) -> (u: User)
        ensures
            u@ == (UserView {
                userid: req.userid,
                name: req.name@,
                username: req.username@,
                phno: req.phno@,
                address: req.address@,
                balance: req.balance,
                password_hash: password_hash@,
            }),
    {
        User {
            userid: req.userid,
            name: req.name,
            username: req.username,
            phno: req.phno,
            address: req.address,
            balance: req.balance,
            password_hash,
        }
    }
}

} // verus!
