use auth_users::{Users, UsersImpl};

#[test]
fn should_create_user() {
    let mut user_service = UsersImpl::default();
    user_service
        .create_user("username".to_owned(), "password".to_owned())
        .expect("should create user");

    assert_eq!(user_service.len(), 1);
    assert!(user_service.find_by_username(&"username".to_owned()).is_some());
}

#[test]
fn should_fail_creating_user_with_existing_username() {
    let mut user_service = UsersImpl::default();
    user_service
        .create_user("username".to_owned(), "password".to_owned())
        .expect("should create user");

    let result = user_service.create_user("username".to_owned(), "password".to_owned());

    assert!(result.is_err());
}

#[test]
fn should_retrieve_user_uuid() {
    let mut user_service = UsersImpl::default();
    user_service
        .create_user("username".to_owned(), "password".to_owned())
        .expect("should create user");

    assert!(user_service
        .get_user_uuid("username".to_owned(), "password".to_owned())
        .is_some());
}

#[test]
fn should_fail_to_retrieve_user_uuid_with_incorrect_password() {
    let mut user_service = UsersImpl::default();
    user_service
        .create_user("username".to_owned(), "password".to_owned())
        .expect("should create user");

    assert!(user_service
        .get_user_uuid("username".to_owned(), "incorrect password".to_owned())
        .is_none());
}

#[test]
fn should_delete_user() {
    let mut user_service = UsersImpl::default();
    user_service
        .create_user("username".to_owned(), "password".to_owned())
        .expect("should create user");

    let user_uuid = user_service
        .get_user_uuid("username".to_owned(), "password".to_owned())
        .unwrap();

    assert!(user_service.delete_user(user_uuid).is_ok());

    assert_eq!(user_service.len(), 0);
    assert!(user_service.find_by_username(&"username".to_owned()).is_none());
}
