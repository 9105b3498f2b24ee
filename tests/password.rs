use conduit::error::ApiError;
use conduit::password::{hash_password, hash_password_with_salt, verify_password};

#[test]
fn hashed_password_verifies() {
    let stored = hash_password("hunter2").unwrap();
    assert!(stored.starts_with("$argon2id$"));
    assert_ne!(stored, "hunter2");
    assert_eq!(verify_password("hunter2", &stored), Ok(()));
}

#[test]
fn other_password_does_not_verify() {
    let stored = hash_password("hunter2").unwrap();
    assert_eq!(verify_password("hunter3", &stored), Err(ApiError::Unauthorized));
    assert_eq!(verify_password("", &stored), Err(ApiError::Unauthorized));
}

#[test]
fn each_hash_has_its_own_salt() {
    let first = hash_password("same secret").unwrap();
    let second = hash_password("same secret").unwrap();
    assert_ne!(first, second);
    assert_eq!(verify_password("same secret", &first), Ok(()));
    assert_eq!(verify_password("same secret", &second), Ok(()));
}

#[test]
fn corrupt_stored_credential_is_internal() {
    assert_eq!(verify_password("hunter2", "not a phc string"), Err(ApiError::Internal));
    assert_eq!(verify_password("hunter2", ""), Err(ApiError::Internal));
}

#[test]
fn hash_under_a_given_salt_embeds_it() {
    let stored = hash_password_with_salt("hunter2", "c2FsdHNhbHRzYWx0c2FsdA").unwrap();
    assert!(stored.starts_with("$argon2id$v=19$m=19456,t=2,p=1$c2FsdHNhbHRzYWx0c2FsdA$"));
    assert_eq!(hash_password_with_salt("hunter2", "c2FsdHNhbHRzYWx0c2FsdA"), Ok(stored.clone()));
    assert_eq!(verify_password("hunter2", &stored), Ok(()));
    let other = hash_password_with_salt("hunter2", "b3RoZXJzYWx0b3RoZXJzYQ").unwrap();
    assert_ne!(stored, other);
}

#[test]
fn unreadable_salt_is_internal() {
    assert_eq!(hash_password_with_salt("hunter2", "$$"), Err(ApiError::Internal));
}

#[test]
fn generated_hash_has_the_phc_layout() {
    let stored = hash_password("pw").unwrap();
    let fields: Vec<&str> = stored.split('$').collect();
    assert_eq!(fields.len(), 6);
    assert_eq!(&fields[1..4], &["argon2id", "v=19", "m=19456,t=2,p=1"]);
    assert_eq!(fields[4].len(), 22);
}
