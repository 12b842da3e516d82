use reminder_engine::accounts::{
    check_credentials, enroll, login, open_session, require_login, signup, AccountError, Session,
};
use reminder_engine::time::Timestamp;
use reminder_engine::user_models::{UploadedFile, User};
use reminder_engine::user_storage::{carries_tag, tags_without, UserStorage, UserStorageError};

fn user(id: &str, name: &str) -> User {
    User::with_identity(id.to_string(), Timestamp::new(1, 0), name.to_string(), "hash".to_string())
}

fn file(id: &str, owner: &str, name: &str) -> UploadedFile {
    UploadedFile::with_identity(
        id.to_string(),
        Timestamp::new(2, 0),
        owner.to_string(),
        name.to_string(),
        "content".to_string(),
    )
}

#[test]
fn require_login_hands_on_the_session() {
    let session = Session { user_id: "u1".to_string(), username: "ana".to_string() };
    assert_eq!(
        require_login(Some(session)),
        Ok(Session { user_id: "u1".to_string(), username: "ana".to_string() })
    );
    assert_eq!(require_login(None), Err(AccountError::NotLoggedIn));
}

#[test]
fn credentials_need_a_name_and_six_bytes_of_password() {
    assert_eq!(check_credentials("", "secret1"), Err(AccountError::EmptyUsername));
    assert_eq!(check_credentials("", ""), Err(AccountError::EmptyUsername));
    assert_eq!(check_credentials("ana", "12345"), Err(AccountError::PasswordTooShort));
    assert_eq!(check_credentials("ana", "123456"), Ok(()));
    assert_eq!(check_credentials("ana", "ééé"), Ok(()));
    assert_eq!(check_credentials("ana", "éé"), Err(AccountError::PasswordTooShort));
}

#[test]
fn signup_then_login_opens_a_session() {
    let mut storage = UserStorage::new(Vec::new(), Vec::new());
    let user = signup(&mut storage, "ana".to_string(), "correct horse".to_string()).unwrap();
    assert_eq!(user.username, "ana");
    assert_ne!(user.password_hash, "correct horse");
    assert_eq!(user.password_hash.len(), 60);
    assert_eq!(storage.get_user_by_username("ana"), Some(user.clone()));
    let session = login(&storage, "ana", "correct horse").unwrap();
    assert_eq!(session, Session { user_id: user.id.clone(), username: "ana".to_string() });
    assert_eq!(login(&storage, "ana", "wrong horse"), Err(AccountError::InvalidCredentials));
    assert_eq!(login(&storage, "bob", "correct horse"), Err(AccountError::InvalidCredentials));
}

#[test]
fn signup_refuses_bad_credentials_and_taken_names() {
    let mut storage = UserStorage::new(vec![user("u1", "ana")], Vec::new());
    assert_eq!(
        signup(&mut storage, "".to_string(), "long enough".to_string()),
        Err(AccountError::EmptyUsername)
    );
    assert_eq!(
        signup(&mut storage, "bob".to_string(), "short".to_string()),
        Err(AccountError::PasswordTooShort)
    );
    assert_eq!(
        signup(&mut storage, "ana".to_string(), "long enough".to_string()),
        Err(AccountError::UsernameTaken)
    );
    assert_eq!(storage.get_user_by_username("bob"), None);
}

#[test]
fn login_fails_on_a_stored_text_that_is_no_hash() {
    let storage = UserStorage::new(vec![user("u1", "ana")], Vec::new());
    assert_eq!(login(&storage, "ana", "hash"), Err(AccountError::VerificationFailed));
}

#[test]
fn login_checks_against_a_known_hash() {
    // A hash of "correctbatteryhorsestapler" at cost 4.
    let known = User::with_identity(
        "u9".to_string(),
        Timestamp::new(1, 0),
        "eve".to_string(),
        "$2b$04$EGdrhbKUv8Oc9vGiXX0HQOxSg445d458Muh7DAHskb6QbtCvdxcie".to_string(),
    );
    let storage = UserStorage::new(vec![known], Vec::new());
    assert_eq!(
        login(&storage, "eve", "correctbatteryhorsestapler"),
        Ok(Session { user_id: "u9".to_string(), username: "eve".to_string() })
    );
    assert_eq!(login(&storage, "eve", "wrong"), Err(AccountError::InvalidCredentials));
}

#[test]
fn open_session_follows_the_comparison() {
    let ana = user("u1", "ana");
    assert_eq!(
        open_session(&ana, Some(true)),
        Ok(Session { user_id: "u1".to_string(), username: "ana".to_string() })
    );
    assert_eq!(open_session(&ana, Some(false)), Err(AccountError::InvalidCredentials));
    assert_eq!(open_session(&ana, None), Err(AccountError::VerificationFailed));
}

#[test]
fn enroll_stores_the_hash_it_is_given() {
    let mut storage = UserStorage::new(Vec::new(), Vec::new());
    let stored = enroll(&mut storage, "ana".to_string(), "h1".to_string()).unwrap();
    assert_eq!(stored.username, "ana");
    assert_eq!(stored.password_hash, "h1");
    assert_eq!(
        enroll(&mut storage, "ana".to_string(), "h2".to_string()),
        Err(AccountError::UsernameTaken)
    );
    assert_eq!(storage.get_user_by_username("ana"), Some(stored));
}

#[test]
fn account_errors_explain_themselves() {
    assert_eq!(
        AccountError::NotLoggedIn.message(),
        "You must be logged in. Use: quiz login -u <username> -p <password>"
    );
    assert_eq!(AccountError::EmptyUsername.message(), "Username cannot be empty");
    assert_eq!(
        AccountError::PasswordTooShort.message(),
        "Password must be at least 6 characters long"
    );
    assert_eq!(AccountError::HashingFailed.message(), "Failed to hash password");
    assert_eq!(AccountError::UsernameTaken.message(), "Username already exists");
    assert_eq!(AccountError::InvalidCredentials.message(), "Invalid username or password");
    assert_eq!(AccountError::VerificationFailed.message(), "Failed to verify password");
    assert_eq!(UserStorageError::UsernameTaken.message(), "Username already exists");
    assert_eq!(UserStorageError::FileNotFound.message(), "File not found");
}

#[test]
fn create_user_refuses_a_name_that_is_taken() {
    let mut storage = UserStorage::new(Vec::new(), Vec::new());
    assert_eq!(storage.create_user(user("u1", "ana")), Ok(user("u1", "ana")));
    assert_eq!(storage.create_user(user("u2", "bob")), Ok(user("u2", "bob")));
    assert_eq!(storage.create_user(user("u3", "ana")), Err(UserStorageError::UsernameTaken));
    assert_eq!(storage.get_user_by_username("ana"), Some(user("u1", "ana")));
    assert_eq!(storage.get_user_by_username("bob"), Some(user("u2", "bob")));
    assert_eq!(storage.get_user_by_username("Ana"), None);
}

#[test]
fn files_are_listed_by_owner_in_order() {
    let mut storage = UserStorage::new(Vec::new(), Vec::new());
    assert_eq!(storage.add_file(file("f1", "u1", "a.txt")), file("f1", "u1", "a.txt"));
    storage.add_file(file("f2", "u2", "b.txt"));
    storage.add_file(file("f3", "u1", "c.txt"));
    assert_eq!(
        storage.get_user_files("u1"),
        vec![file("f1", "u1", "a.txt"), file("f3", "u1", "c.txt")]
    );
    assert_eq!(storage.get_user_files("u2"), vec![file("f2", "u2", "b.txt")]);
    assert!(storage.get_user_files("u3").is_empty());
}

#[test]
fn a_file_is_found_by_its_id_and_its_owner() {
    let storage = UserStorage::new(
        Vec::new(),
        vec![file("f1", "u1", "a.txt"), file("f1", "u2", "b.txt")],
    );
    assert_eq!(storage.get_file_by_id("f1", "u1"), Some(file("f1", "u1", "a.txt")));
    assert_eq!(storage.get_file_by_id("f1", "u2"), Some(file("f1", "u2", "b.txt")));
    assert_eq!(storage.get_file_by_id("f1", "u3"), None);
    assert_eq!(storage.get_file_by_id("f2", "u1"), None);
}

#[test]
fn a_tag_is_added_once() {
    let mut storage = UserStorage::new(Vec::new(), vec![file("f1", "u1", "a.txt")]);
    assert_eq!(storage.add_tag_to_file("f1", "u1", "math".to_string()), Ok(true));
    assert_eq!(storage.add_tag_to_file("f1", "u1", "physics".to_string()), Ok(true));
    assert_eq!(storage.add_tag_to_file("f1", "u1", "math".to_string()), Ok(false));
    assert_eq!(storage.get_file_by_id("f1", "u1").unwrap().tags, vec!["math", "physics"]);
    assert_eq!(
        storage.add_tag_to_file("f1", "u2", "math".to_string()),
        Err(UserStorageError::FileNotFound)
    );
    assert_eq!(
        storage.add_tag_to_file("f9", "u1", "math".to_string()),
        Err(UserStorageError::FileNotFound)
    );
}

#[test]
fn a_tag_is_removed_wherever_it_stands() {
    let mut tagged = file("f1", "u1", "a.txt");
    tagged.tags = vec!["x".to_string(), "math".to_string(), "y".to_string(), "math".to_string()];
    let mut storage = UserStorage::new(Vec::new(), vec![tagged, file("f2", "u1", "b.txt")]);
    assert_eq!(storage.remove_tag_from_file("f1", "u1", "math"), Ok(()));
    assert_eq!(storage.get_file_by_id("f1", "u1").unwrap().tags, vec!["x", "y"]);
    assert_eq!(storage.remove_tag_from_file("f1", "u1", "absent"), Ok(()));
    assert_eq!(storage.get_file_by_id("f1", "u1").unwrap().tags, vec!["x", "y"]);
    assert_eq!(storage.remove_tag_from_file("f2", "u2", "x"), Err(UserStorageError::FileNotFound));
    assert_eq!(storage.get_file_by_id("f2", "u1"), Some(file("f2", "u1", "b.txt")));
}

#[test]
fn tag_helpers_compare_whole_tags() {
    let tags = vec!["math".to_string(), "Math".to_string(), "mat".to_string()];
    assert!(carries_tag(&tags, &"math".to_string()));
    assert!(!carries_tag(&tags, &"ma".to_string()));
    assert_eq!(tags_without(&tags, "math"), vec!["Math", "mat"]);
    assert_eq!(tags_without(&tags, "none"), tags);
}

#[test]
fn new_accounts_and_files_get_fresh_ids() {
    let a = User::new("ana".to_string(), "h".to_string());
    let b = User::new("ana".to_string(), "h".to_string());
    assert_ne!(a.id, b.id);
    assert_eq!(a.username, "ana");
    assert_eq!(a.password_hash, "h");
    let f = UploadedFile::new("u1".to_string(), "a.txt".to_string(), "text".to_string());
    let g = UploadedFile::new("u1".to_string(), "a.txt".to_string(), "text".to_string());
    assert_ne!(f.id, g.id);
    assert_eq!(f.user_id, "u1");
    assert_eq!(f.filename, "a.txt");
    assert_eq!(f.content, "text");
    assert!(f.tags.is_empty());
    assert_eq!(f.clone(), f);
}
