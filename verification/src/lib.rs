//! A small ledger service core: accounts hold a non-negative balance in
//! integer minor units, and transfers move value between two accounts while
//! appending an immutable record of every movement.

use vstd::prelude::*;

pub mod auth;
pub mod errors;
pub mod laws;
pub mod ledger;
pub mod model;
pub mod passwd;
pub mod retry;

verus! {

/// The greeting served at the root of the service.
pub fn hello() -> (r: &'static str)
    ensures
        r@ == "Hi Raghav!"@,
{
    "Hi Raghav!"
}

} // verus!
