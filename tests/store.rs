use auth_users::{UserError, Users, UsersImpl};

#[test]
fn alice_full_lifecycle() {
    let mut store = UsersImpl::new();
    assert_eq!(store.create_user("alice".to_owned(), "secret1".to_owned()), Ok(()));
    assert_eq!(
        store.create_user("alice".to_owned(), "other".to_owned()),
        Err(UserError::DuplicateUsername)
    );
    let id = store
        .get_user_uuid("alice".to_owned(), "secret1".to_owned())
        .expect("alice logs in");
    assert_eq!(store.get_user_uuid("alice".to_owned(), "secret2".to_owned()), None);
    assert_eq!(store.delete_user(id.clone()), Ok(()));
    assert_eq!(store.get_user_uuid("alice".to_owned(), "secret1".to_owned()), None);
    assert_eq!(store.len(), 0);
}

#[test]
fn created_identifier_is_a_hyphenated_uuid() {
    let mut store = UsersImpl::new();
    store.create_user("carol".to_owned(), "pw".to_owned()).unwrap();
    let id = store.get_user_uuid("carol".to_owned(), "pw".to_owned()).unwrap();
    assert_eq!(id.len(), 36);
    assert_eq!(id.matches('-').count(), 4);
    let user = store.find_by_username(&"carol".to_owned()).unwrap();
    assert_eq!(user.identifier(), id.as_str());
    assert_eq!(user.username(), "carol");
}

#[test]
fn identical_passwords_get_distinct_hashes_and_identifiers() {
    let mut store = UsersImpl::new();
    store.create_user("dave".to_owned(), "same".to_owned()).unwrap();
    store.create_user("erin".to_owned(), "same".to_owned()).unwrap();
    let dave = store.find_by_username(&"dave".to_owned()).unwrap();
    let erin = store.find_by_username(&"erin".to_owned()).unwrap();
    assert_ne!(dave.password_hash(), "same");
    assert_ne!(erin.password_hash(), "same");
    assert!(dave.password_hash().starts_with("$pbkdf2-sha256$"));
    assert_ne!(dave.password_hash(), erin.password_hash());
    assert_ne!(dave.identifier(), erin.identifier());
    assert_eq!(store.len(), 2);
}

#[test]
fn failed_create_leaves_count_unchanged() {
    let mut store = UsersImpl::new();
    store.create_user("frank".to_owned(), "pw".to_owned()).unwrap();
    assert_eq!(store.len(), 1);
    assert_eq!(
        store.create_user("frank".to_owned(), "pw".to_owned()),
        Err(UserError::DuplicateUsername)
    );
    assert_eq!(store.len(), 1);
}

#[test]
fn unknown_username_verifies_nothing() {
    let store = UsersImpl::new();
    assert_eq!(store.get_user_uuid("nobody".to_owned(), "anything".to_owned()), None);
    assert_eq!(store.get_user_uuid(String::new(), String::new()), None);
}

#[test]
fn delete_unknown_identifier_is_an_error() {
    let mut store = UsersImpl::new();
    assert_eq!(store.delete_user("no-such-id".to_owned()), Err(UserError::UnknownIdentifier));
    assert_eq!(store.len(), 0);
}

#[test]
fn register_refuses_taken_username() {
    let mut store = UsersImpl::new();
    assert_eq!(store.register("gina".to_owned(), "id-1".to_owned(), "h".to_owned()), Ok(()));
    assert_eq!(
        store.register("gina".to_owned(), "id-2".to_owned(), "h".to_owned()),
        Err(UserError::DuplicateUsername)
    );
    assert_eq!(store.len(), 1);
}

#[test]
fn register_refuses_empty_live_and_retired_identifiers() {
    let mut store = UsersImpl::new();
    assert_eq!(
        store.register("hank".to_owned(), String::new(), "h".to_owned()),
        Err(UserError::IdentifierCollision)
    );
    assert_eq!(store.register("hank".to_owned(), "id-1".to_owned(), "h".to_owned()), Ok(()));
    assert_eq!(
        store.register("ivy".to_owned(), "id-1".to_owned(), "h".to_owned()),
        Err(UserError::IdentifierCollision)
    );
    assert_eq!(store.delete_user("id-1".to_owned()), Ok(()));
    assert_eq!(
        store.register("ivy".to_owned(), "id-1".to_owned(), "h".to_owned()),
        Err(UserError::IdentifierCollision)
    );
    assert_eq!(store.register("ivy".to_owned(), "id-2".to_owned(), "h".to_owned()), Ok(()));
    assert_eq!(store.len(), 1);
}

#[test]
fn deleted_username_can_register_again() {
    let mut store = UsersImpl::new();
    store.register("jack".to_owned(), "id-1".to_owned(), "h".to_owned()).unwrap();
    assert_eq!(store.delete_user("id-1".to_owned()), Ok(()));
    assert!(store.find_by_username(&"jack".to_owned()).is_none());
    assert_eq!(store.delete_user("id-1".to_owned()), Err(UserError::UnknownIdentifier));
    assert_eq!(store.register("jack".to_owned(), "id-2".to_owned(), "h".to_owned()), Ok(()));
    let user = store.find_by_username(&"jack".to_owned()).unwrap();
    assert_eq!(user.identifier(), "id-2");
}

#[test]
fn malformed_stored_hash_verifies_nothing() {
    let mut store = UsersImpl::new();
    store.register("kate".to_owned(), "id-1".to_owned(), "plain".to_owned()).unwrap();
    assert_eq!(store.get_user_uuid("kate".to_owned(), "plain".to_owned()), None);
}
