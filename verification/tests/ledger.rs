use payfree::errors::ApiError;
use payfree::ledger::Ledger;
use payfree::model::{Transaction, User};

fn user(id: u128, username: &str, balance: u64) -> User {
    User {
        userid: id,
        name: format!("Name {}", id),
        username: username.to_string(),
        phno: format!("{}", 1000000000u64 + id as u64),
        address: format!("Address {}", id),
        balance,
        password_hash: "hash".to_string(),
    }
}

fn txn(id: u128, amount: u64, from: &str, to: &str, time: i64) -> Transaction {
    Transaction {
        txn_id: id,
        amount,
        from_username: from.to_string(),
        to_username: to.to_string(),
        time,
    }
}

#[test]
fn test_new_user_and_login() {
    let mut ledger = Ledger::new();
    let res = ledger.new_user(user(1, "testuser_1", 100));
    assert!(res.is_ok());

    let found = ledger.login("testuser_1");
    assert!(found.is_some());
    assert_eq!(found.unwrap().username, "testuser_1");
}

#[test]
fn test_fetch_profile_and_balance() {
    let mut ledger = Ledger::new();
    ledger.new_user(user(1, "testuser_1", 12345)).unwrap();

    let profile = ledger.fetch_profile("testuser_1");
    assert!(profile.is_some());
    assert_eq!(profile.as_ref().unwrap().balance, 12345);

    let balance = ledger.fetch_balance("testuser_1");
    assert_eq!(balance, Some(12345));
}

#[test]
fn test_insert_and_fetch_transaction() {
    let mut ledger = Ledger::new();
    ledger.new_user(user(1, "sender_1", 500)).unwrap();
    ledger.new_user(user(2, "receiver_1", 100)).unwrap();

    let res = ledger.insert_transaction(txn(77, 50, "sender_1", "receiver_1", 10));
    assert!(res.is_ok());

    let fetched = ledger.fetch_transaction(77);
    assert!(fetched.is_some());
    let fetched_txn = fetched.unwrap();
    assert_eq!(fetched_txn.amount, 50);
    assert_eq!(fetched_txn.from_username, "sender_1");
    assert_eq!(fetched_txn.to_username, "receiver_1");

    let txns = ledger.fetch_transactions("sender_1");
    assert!(txns.iter().any(|t| t.txn_id == 77));
}

#[test]
fn test_balance_low_error() {
    let mut ledger = Ledger::new();
    ledger.new_user(user(1, "sender_2", 10)).unwrap();
    ledger.new_user(user(2, "receiver_2", 100)).unwrap();

    let res = ledger.insert_transaction(txn(78, 100, "sender_2", "receiver_2", 10));
    assert!(matches!(res, Err(ApiError::BalanceLow)));
}

#[test]
fn test_transfer_scenario_success() {
    let mut ledger = Ledger::new();
    ledger.new_user(user(1, "a", 100)).unwrap();
    ledger.new_user(user(2, "b", 50)).unwrap();

    let res = ledger.insert_transaction(txn(1, 30, "a", "b", 1));
    assert!(res.is_ok());
    assert_eq!(ledger.fetch_balance("a"), Some(70));
    assert_eq!(ledger.fetch_balance("b"), Some(80));

    let entries = ledger.fetch_transactions("a");
    assert_eq!(entries.len(), 1);
    assert_eq!(entries[0].amount, 30);
    assert_eq!(entries[0].from_username, "a");
    assert_eq!(entries[0].to_username, "b");
}

#[test]
fn test_transfer_scenario_insufficient() {
    let mut ledger = Ledger::new();
    ledger.new_user(user(1, "a", 10)).unwrap();
    ledger.new_user(user(2, "b", 50)).unwrap();

    let res = ledger.insert_transaction(txn(1, 50, "a", "b", 1));
    assert!(matches!(res, Err(ApiError::BalanceLow)));
    assert_eq!(ledger.fetch_balance("a"), Some(10));
    assert_eq!(ledger.fetch_balance("b"), Some(50));
    assert!(ledger.fetch_transactions("a").is_empty());
    assert!(ledger.fetch_transaction(1).is_none());
}

#[test]
fn test_transfer_scenario_self() {
    let mut ledger = Ledger::new();
    ledger.new_user(user(1, "a", 100)).unwrap();

    let res = ledger.insert_transaction(txn(1, 10, "a", "a", 1));
    assert!(matches!(res, Err(ApiError::InvalidTransfer)));
    assert_eq!(ledger.fetch_balance("a"), Some(100));
    assert!(ledger.fetch_transactions("a").is_empty());
}

#[test]
fn test_transfer_zero_amount() {
    let mut ledger = Ledger::new();
    ledger.new_user(user(1, "a", 100)).unwrap();
    ledger.new_user(user(2, "b", 50)).unwrap();

    let res = ledger.insert_transaction(txn(1, 0, "a", "b", 1));
    assert!(matches!(res, Err(ApiError::InvalidAmount)));
    assert_eq!(ledger.fetch_balance("a"), Some(100));
}

#[test]
fn test_transfer_unknown_account() {
    let mut ledger = Ledger::new();
    ledger.new_user(user(1, "a", 100)).unwrap();

    let res = ledger.insert_transaction(txn(1, 10, "a", "nobody", 1));
    assert!(matches!(res, Err(ApiError::UserNotFound)));
    let res = ledger.insert_transaction(txn(2, 10, "nobody", "a", 1));
    assert!(matches!(res, Err(ApiError::UserNotFound)));
    assert_eq!(ledger.fetch_balance("a"), Some(100));
}

#[test]
fn test_transfer_duplicate_txn_id() {
    let mut ledger = Ledger::new();
    ledger.new_user(user(1, "a", 100)).unwrap();
    ledger.new_user(user(2, "b", 50)).unwrap();

    ledger.insert_transaction(txn(9, 10, "a", "b", 1)).unwrap();
    let res = ledger.insert_transaction(txn(9, 10, "a", "b", 2));
    assert!(matches!(res, Err(ApiError::Conflict)));
    assert_eq!(ledger.fetch_balance("a"), Some(90));
    assert_eq!(ledger.fetch_balance("b"), Some(60));
}

#[test]
fn test_new_user_duplicate_username() {
    let mut ledger = Ledger::new();
    ledger.new_user(user(1, "a", 100)).unwrap();

    let res = ledger.new_user(user(2, "a", 50));
    assert!(matches!(res, Err(ApiError::Conflict)));
    assert_eq!(ledger.fetch_balance("a"), Some(100));
}

#[test]
fn test_new_user_duplicate_userid() {
    let mut ledger = Ledger::new();
    ledger.new_user(user(1, "a", 100)).unwrap();

    // A fresh username under an already-taken surrogate identifier is
    // rejected like any other identity clash.
    let res = ledger.new_user(user(1, "b", 50));
    assert!(matches!(res, Err(ApiError::Conflict)));
    assert!(ledger.login("b").is_none());
    assert_eq!(ledger.fetch_balance("a"), Some(100));
}

#[test]
fn test_new_user_total_overflow() {
    let mut ledger = Ledger::new();
    ledger.new_user(user(1, "rich", u64::MAX)).unwrap();

    let res = ledger.new_user(user(2, "poor", 1));
    assert!(matches!(res, Err(ApiError::Validation)));
    assert!(ledger.login("poor").is_none());
}

#[test]
fn test_conservation_over_transfers() {
    let mut ledger = Ledger::new();
    ledger.new_user(user(1, "a", 1000)).unwrap();
    ledger.new_user(user(2, "b", 900)).unwrap();
    ledger.new_user(user(3, "c", 800)).unwrap();
    let sum_before = 1000 + 900 + 800;

    ledger.insert_transaction(txn(1, 100, "a", "b", 1)).unwrap();
    ledger.insert_transaction(txn(2, 250, "b", "c", 2)).unwrap();
    ledger.insert_transaction(txn(3, 50, "c", "a", 3)).unwrap();
    // A rejected transfer moves nothing.
    assert!(ledger.insert_transaction(txn(4, 100000, "a", "b", 4)).is_err());

    let sum_after = ledger.fetch_balance("a").unwrap() + ledger.fetch_balance("b").unwrap()
        + ledger.fetch_balance("c").unwrap();
    assert_eq!(sum_before, sum_after);
}

#[test]
fn test_fetch_transactions_order() {
    let mut ledger = Ledger::new();
    ledger.new_user(user(1, "a", 1000)).unwrap();
    ledger.new_user(user(2, "b", 0)).unwrap();
    ledger.new_user(user(3, "c", 0)).unwrap();

    // Commit times arrive out of order; the listing is newest first.
    ledger.insert_transaction(txn(1, 10, "a", "b", 50)).unwrap();
    ledger.insert_transaction(txn(2, 20, "a", "c", 10)).unwrap();
    ledger.insert_transaction(txn(3, 30, "a", "b", 90)).unwrap();
    ledger.insert_transaction(txn(4, 40, "b", "c", 70)).unwrap();

    let for_a = ledger.fetch_transactions("a");
    assert_eq!(for_a.iter().map(|t| t.txn_id).collect::<Vec<_>>(), vec![3, 1, 2]);

    let for_b = ledger.fetch_transactions("b");
    assert_eq!(for_b.iter().map(|t| t.txn_id).collect::<Vec<_>>(), vec![3, 4, 1]);
}

#[test]
fn test_fetch_transaction_idempotent() {
    let mut ledger = Ledger::new();
    ledger.new_user(user(1, "a", 100)).unwrap();
    ledger.new_user(user(2, "b", 50)).unwrap();
    ledger.insert_transaction(txn(5, 25, "a", "b", 42)).unwrap();

    let first = ledger.fetch_transaction(5).unwrap();
    let second = ledger.fetch_transaction(5).unwrap();
    assert_eq!(first.txn_id, second.txn_id);
    assert_eq!(first.amount, second.amount);
    assert_eq!(first.from_username, second.from_username);
    assert_eq!(first.to_username, second.to_username);
    assert_eq!(first.time, second.time);

    // Still the same record after further, unrelated commits.
    ledger.insert_transaction(txn(6, 5, "b", "a", 43)).unwrap();
    let third = ledger.fetch_transaction(5).unwrap();
    assert_eq!(third.amount, 25);
    assert_eq!(third.time, 42);
}

#[test]
fn test_contended_fanout() {
    // Five withdrawals of 30 from a balance of 100: exactly three land.
    let mut ledger = Ledger::new();
    ledger.new_user(user(0, "x", 100)).unwrap();
    for i in 1..=5u128 {
        ledger.new_user(user(i, &format!("t{}", i), 0)).unwrap();
    }

    let mut successes = 0;
    let mut low = 0;
    for i in 1..=5u128 {
        match ledger.insert_transaction(txn(i, 30, "x", &format!("t{}", i), i as i64)) {
            Ok(()) => successes += 1,
            Err(ApiError::BalanceLow) => low += 1,
            Err(e) => panic!("unexpected error {:?}", e),
        }
    }
    assert_eq!(successes, 3);
    assert_eq!(low, 2);
    assert_eq!(ledger.fetch_balance("x"), Some(10));
}
