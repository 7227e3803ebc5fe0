use payfree::errors::ApiError;
use payfree::passwd::{hash, verify};
use payfree::retry::{retry_decision, CommitOutcome, RetryDecision};

#[test]
fn test_hash_and_verify_success() {
    let password = "test_password";
    let hashed = hash(password).expect("Hashing failed");
    let is_valid = verify(password, &hashed).expect("Verification failed");
    assert!(is_valid, "Password should verify successfully");
}

#[test]
fn test_verify_failure() {
    let password = "test_password";
    let wrong_password = "wrong_password";
    let hashed = hash(password).expect("Hashing failed");
    let is_valid = verify(wrong_password, &hashed).expect("Verification failed");
    assert!(!is_valid, "Wrong password should not verify");
}

#[test]
fn test_hash_is_phc_encoded() {
    // A raw password echoed back would not verify and would not carry the
    // PHC algorithm tag.
    let password = "test_password";
    let hashed = hash(password).expect("Hashing failed");
    assert_ne!(hashed, password);
    assert!(hashed.starts_with("$argon2"));
    // An unparsable stored hash is a fault, not a mismatch.
    assert!(verify(password, password).is_err());
}

#[test]
fn test_retry_policy() {
    assert_eq!(retry_decision(CommitOutcome::Committed, 1, 3), RetryDecision::Done);
    assert_eq!(retry_decision(CommitOutcome::TransientConflict, 1, 3), RetryDecision::RetryAgain);
    assert_eq!(retry_decision(CommitOutcome::TransientConflict, 2, 3), RetryDecision::RetryAgain);
    assert_eq!(
        retry_decision(CommitOutcome::TransientConflict, 3, 3),
        RetryDecision::GiveUp(ApiError::Conflict)
    );
    assert_eq!(
        retry_decision(CommitOutcome::StorageDown, 1, 3),
        RetryDecision::GiveUp(ApiError::StorageUnavailable)
    );
}
