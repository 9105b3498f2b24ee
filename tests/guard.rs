use conduit::error::{ApiError, Identity};
use conduit::guard::{ownership_outcome, OwnedResources};

const A: Identity = Identity { value: 0xa };
const B: Identity = Identity { value: 0xb };

#[test]
fn outcome_table() {
    assert_eq!(ownership_outcome(false, false), Err(ApiError::NotFound));
    assert_eq!(ownership_outcome(true, false), Err(ApiError::Forbidden));
    assert_eq!(ownership_outcome(true, true), Ok(()));
    assert_eq!(ownership_outcome(false, true), Err(ApiError::Internal));
}

#[test]
fn owner_guard_scenario() {
    let mut store = OwnedResources::new();
    assert!(store.create("r1", A));
    assert_eq!(store.delete_owned("r1", B), Err(ApiError::Forbidden));
    assert_eq!(store.delete_owned("does-not-exist", A), Err(ApiError::NotFound));
    assert_eq!(store.delete_owned("does-not-exist", B), Err(ApiError::NotFound));
    assert_eq!(store.delete_owned("r1", A), Ok(()));
    assert_eq!(store.delete_owned("r1", A), Err(ApiError::NotFound));
}

#[test]
fn two_owner_deletes_succeed_once() {
    let mut store = OwnedResources::new();
    assert!(store.create("r1", A));
    let first = store.delete_owned("r1", A);
    let second = store.delete_owned("r1", A);
    assert_eq!(first, Ok(()));
    assert_eq!(second, Err(ApiError::NotFound));
}

#[test]
fn duplicate_keys_are_not_created() {
    let mut store = OwnedResources::new();
    assert!(store.create("r1", A));
    assert!(!store.create("r1", B));
    assert_eq!(store.delete_owned("r1", B), Err(ApiError::Forbidden));
    assert!(store.create("r2", B));
    assert_eq!(store.delete_owned("r2", B), Ok(()));
    assert_eq!(store.delete_owned("r1", A), Ok(()));
}
