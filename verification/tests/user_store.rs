use auth_service::domain::User;
use auth_service::services::{HashmapUserStore, UserStoreError};

#[test]
fn test_add_user() {
    let mut store = HashmapUserStore::default();
    let user = User::new("test@example.com".to_string(), "secret".to_string(), false);

    let result = store.add_user(user);
    assert_eq!(Ok(()), result);

    let duplicate = User::new("test@example.com".to_string(), "secret".to_string(), false);
    let result = store.add_user(duplicate);
    assert_eq!(Err(UserStoreError::UserAlreadyExists), result);
}

#[test]
fn test_get_user() {
    let mut store = HashmapUserStore::default();
    let user = User::new("test@example.com".to_string(), "secret".to_string(), true);
    let _ = store.add_user(user);

    let result = store.get_user("test@example.com");
    assert!(result.is_ok());
    let fetched = result.unwrap();
    assert_eq!("test@example.com", fetched.email);
    assert_eq!("secret", fetched.password);
    assert!(fetched.requires_2fa);

    let result = store.get_user("missing@example.com");
    assert_eq!(Err(UserStoreError::UserNotFound), result);
}

#[test]
fn test_validate_user() {
    let mut store = HashmapUserStore::default();
    let user = User::new("test@example.com".to_string(), "secret".to_string(), false);
    let _ = store.add_user(user);

    let result = store.validate_user("test@example.com", "secret");
    assert_eq!(Ok(()), result);

    let result = store.validate_user("test@example.com", "wrong");
    assert_eq!(Err(UserStoreError::InvalidCredentials), result);

    let result = store.validate_user("missing@example.com", "secret");
    assert_eq!(Err(UserStoreError::UserNotFound), result);
}

#[test]
fn added_record_is_returned_unchanged_and_readdition_fails() {
    let mut store = HashmapUserStore::default();
    let user = User::new("k@x.com".to_string(), "pw".to_string(), true);
    assert_eq!(Ok(()), store.add_user(user));

    let fetched = store.get_user("k@x.com").unwrap();
    assert_eq!(
        User::new("k@x.com".to_string(), "pw".to_string(), true),
        fetched
    );

    let again = User::new("k@x.com".to_string(), "other".to_string(), false);
    assert_eq!(Err(UserStoreError::UserAlreadyExists), store.add_user(again));

    // The failed addition left the stored record untouched.
    let fetched = store.get_user("k@x.com").unwrap();
    assert_eq!("pw", fetched.password);
    assert!(fetched.requires_2fa);
}

#[test]
fn absent_key_fails_every_read() {
    let store = HashmapUserStore::default();
    assert_eq!(Err(UserStoreError::UserNotFound), store.get_user("nobody@x.com"));
    assert_eq!(
        Err(UserStoreError::UserNotFound),
        store.validate_user("nobody@x.com", "anything")
    );
    assert_eq!(Err(UserStoreError::UserNotFound), store.validate_user("nobody@x.com", ""));
}

#[test]
fn validation_succeeds_only_on_the_exact_credential() {
    let mut store = HashmapUserStore::default();
    let user = User::new("k@x.com".to_string(), "pw".to_string(), false);
    let _ = store.add_user(user);

    assert_eq!(Ok(()), store.validate_user("k@x.com", "pw"));
    assert_eq!(Err(UserStoreError::InvalidCredentials), store.validate_user("k@x.com", "pw "));
    assert_eq!(Err(UserStoreError::InvalidCredentials), store.validate_user("k@x.com", "PW"));
    assert_eq!(Err(UserStoreError::InvalidCredentials), store.validate_user("k@x.com", ""));
}

#[test]
fn empty_strings_are_ordinary_values() {
    let mut store = HashmapUserStore::default();
    let user = User::new("".to_string(), "".to_string(), false);
    assert_eq!(Ok(()), store.add_user(user));

    assert_eq!(Ok(()), store.validate_user("", ""));
    assert_eq!(Err(UserStoreError::InvalidCredentials), store.validate_user("", "x"));

    let duplicate = User::new("".to_string(), "pw".to_string(), true);
    assert_eq!(Err(UserStoreError::UserAlreadyExists), store.add_user(duplicate));
}

#[test]
fn repeated_reads_return_identical_results() {
    let mut store = HashmapUserStore::default();
    let user = User::new("k@x.com".to_string(), "pw".to_string(), false);
    let _ = store.add_user(user);

    let first_get = store.get_user("k@x.com");
    let second_get = store.get_user("k@x.com");
    assert_eq!(first_get, second_get);

    let first_validate = store.validate_user("k@x.com", "wrong");
    let second_validate = store.validate_user("k@x.com", "wrong");
    assert_eq!(first_validate, second_validate);

    let first_missing = store.get_user("gone@x.com");
    let second_missing = store.get_user("gone@x.com");
    assert_eq!(first_missing, second_missing);
}

#[test]
fn many_adds_for_one_key_have_a_single_winner() {
    let mut store = HashmapUserStore::default();
    let mut successes: u32 = 0;
    let mut duplicates: u32 = 0;
    for attempt in 0..10u32 {
        let user = User::new(
            "contended@x.com".to_string(),
            format!("pw-{}", attempt),
            false,
        );
        match store.add_user(user) {
            Ok(()) => successes += 1,
            Err(UserStoreError::UserAlreadyExists) => duplicates += 1,
            Err(other) => panic!("unexpected error: {:?}", other),
        }
    }
    assert_eq!(1, successes);
    assert_eq!(9, duplicates);

    // The surviving record is the first one offered.
    let fetched = store.get_user("contended@x.com").unwrap();
    assert_eq!("pw-0", fetched.password);
}

#[test]
fn unrelated_keys_do_not_interfere() {
    let mut store = HashmapUserStore::default();
    let a = User::new("a@x.com".to_string(), "pa".to_string(), false);
    let b = User::new("b@x.com".to_string(), "pb".to_string(), true);
    assert_eq!(Ok(()), store.add_user(a));
    assert_eq!(Ok(()), store.add_user(b));

    assert_eq!(Ok(()), store.validate_user("a@x.com", "pa"));
    assert_eq!(Ok(()), store.validate_user("b@x.com", "pb"));
    assert_eq!(Err(UserStoreError::InvalidCredentials), store.validate_user("a@x.com", "pb"));
    assert!(store.get_user("b@x.com").unwrap().requires_2fa);
}

#[test]
fn scenario_signup_then_login() {
    let mut store = HashmapUserStore::default();
    let user = User::new("a@b.com".to_string(), "secret".to_string(), false);
    assert_eq!(Ok(()), store.add_user(user));

    let duplicate = User::new("a@b.com".to_string(), "secret".to_string(), false);
    assert_eq!(Err(UserStoreError::UserAlreadyExists), store.add_user(duplicate));

    assert_eq!(Ok(()), store.validate_user("a@b.com", "secret"));
    assert_eq!(Err(UserStoreError::InvalidCredentials), store.validate_user("a@b.com", "wrong"));
    assert_eq!(Err(UserStoreError::UserNotFound), store.get_user("missing@x.com"));
}

#[test]
fn cloned_user_equals_the_original() {
    let user = User::new("k@x.com".to_string(), "pw".to_string(), true);
    let copy = user.clone();
    assert_eq!(user, copy);
}
