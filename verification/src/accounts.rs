//! Signing up, logging in and the session of the account that is logged in.
//!
//! Passwords are hashed and checked by `bcrypt`. What the store holds and
//! whom a session names is decided here.

use crate::user_models::{User, UserView};
use crate::user_storage::{name_taken, user_named, UserStorage};
use vstd::prelude::*;
use vstd::utf8::encode_utf8;

verus! {

/// The account that is logged in.
#[derive(Debug, PartialEq, Eq)]
pub struct Session {
    pub user_id: String,
    pub username: String,
}

/// Why a request that concerns an account is turned down.
#[derive(Clone, Copy, Debug, PartialEq, Eq, Structural)]
pub enum AccountError {
    /// Nobody is logged in.
    NotLoggedIn,
    /// The name of the new account is empty.
    EmptyUsername,
    /// The password of the new account has fewer than six bytes.
    PasswordTooShort,
    /// `bcrypt` could not hash the password.
    HashingFailed,
    /// An account with that name exists already.
    UsernameTaken,
    /// No account has that name, or the password is not the account's.
    InvalidCredentials,
    /// `bcrypt` could not compare the password with the stored hash.
    VerificationFailed,
}

impl AccountError {
    /// The explanation that is shown to the user.
    pub open spec fn text(self) -> Seq<char> {
        match self {
            AccountError::NotLoggedIn =>
                "You must be logged in. Use: quiz login -u <username> -p <password>"@,
            AccountError::EmptyUsername => "Username cannot be empty"@,
            AccountError::PasswordTooShort => "Password must be at least 6 characters long"@,
            AccountError::HashingFailed => "Failed to hash password"@,
            AccountError::UsernameTaken => "Username already exists"@,
            AccountError::InvalidCredentials => "Invalid username or password"@,
            AccountError::VerificationFailed => "Failed to verify password"@,
        }
    }

    /// Writes the explanation that is shown to the user.
    pub fn message(&self) -> (m: String)
        ensures
            m@ == self.text(),
    {
        match self {
            AccountError::NotLoggedIn =>
                "You must be logged in. Use: quiz login -u <username> -p <password>".to_owned(),
            AccountError::EmptyUsername => "Username cannot be empty".to_owned(),
            AccountError::PasswordTooShort =>
                "Password must be at least 6 characters long".to_owned(),
            AccountError::HashingFailed => "Failed to hash password".to_owned(),
            AccountError::UsernameTaken => "Username already exists".to_owned(),
            AccountError::InvalidCredentials => "Invalid username or password".to_owned(),
            AccountError::VerificationFailed => "Failed to verify password".to_owned(),
        }
    }
}

/// Hands on the session of the account that is logged in, and fails where
/// nobody is.
pub fn require_login(session: Option<Session>) -> (outcome: Result<Session, AccountError>)
    ensures
        outcome == match session {
            Some(current) => Ok::<Session, AccountError>(current),
            None => Err::<Session, AccountError>(AccountError::NotLoggedIn),
        },
{
    match session {
        Some(current) => Ok(current),
        None => Err(AccountError::NotLoggedIn),
    }
}

/// The verdict on the name and the password of a new account: the name
/// must not be empty, and the password needs six bytes of UTF-8 or more.
pub open spec fn credentials_verdict(username: Seq<char>, password: Seq<char>) -> Result<
    (),
    AccountError,
> {
    if username.len() == 0 {
        Err(AccountError::EmptyUsername)
    } else if encode_utf8(password).len() < 6 {
        Err(AccountError::PasswordTooShort)
    } else {
        Ok(())
    }
}

/// Checks the name and the password of a new account.
pub fn check_credentials(username: &str, password: &str) -> (checked: Result<(), AccountError>)
    ensures
        checked == credentials_verdict(username@, password@),
{
    if username.is_empty() {
        Err(AccountError::EmptyUsername)
    } else if password.as_bytes().len() < 6 {
        Err(AccountError::PasswordTooShort)
    } else {
        Ok(())
    }
}

/// Adds an account with the given name and password hash to the store,
/// unless an account of that name exists already.
pub fn enroll(storage: &mut UserStorage, username: String, password_hash: String) -> (outcome:
    Result<User, AccountError>)
    ensures
        final(storage).files() == old(storage).files(),
        match outcome {
            Ok(user) => {
                &&& !name_taken(old(storage).users(), username@)
                &&& final(storage).users() == old(storage).users().push(user@)
                &&& user.username == username
                &&& user.password_hash == password_hash
            },
            Err(error) => {
                &&& error == AccountError::UsernameTaken
                &&& name_taken(old(storage).users(), username@)
                &&& final(storage).users() == old(storage).users()
            },
        },
{
    let user = User::new(username, password_hash);
    match storage.create_user(user) {
        Ok(stored) => Ok(stored),
        Err(_) => Err(AccountError::UsernameTaken),
    }
}

/// Creates an account: checks the name and the password, hashes the
/// password and adds the account to the store.
///
/// Whether hashing succeeds, and with which hash, is up to `bcrypt`; the
/// account is stored with whatever hash came back.
pub fn signup(storage: &mut UserStorage, username: String, password: String) -> (outcome: Result<
    User,
    AccountError,
>)
    ensures
        final(storage).files() == old(storage).files(),
        match outcome {
            Ok(user) => {
                &&& credentials_verdict(username@, password@) is Ok
                &&& !name_taken(old(storage).users(), username@)
                &&& final(storage).users() == old(storage).users().push(user@)
                &&& user.username == username
            },
            Err(error) => {
                &&& final(storage).users() == old(storage).users()
                &&& match credentials_verdict(username@, password@) {
                    Err(refusal) => error == refusal,
                    Ok(_) => error == AccountError::HashingFailed || (error
                        == AccountError::UsernameTaken && name_taken(
                        old(storage).users(),
                        username@,
                    )),
                }
            },
        },
{
    match check_credentials(username.as_str(), password.as_str()) {
        Ok(_) => {},
        Err(error) => { return Err(error); },
    }
    match hash_password(password.as_str()) {
        Some(password_hash) => enroll(storage, username, password_hash),
        None => Err(AccountError::HashingFailed),
    }
}

/// What comparing a password with the hash of an account leads to: a
/// session for that account where they match, and an error otherwise.
pub open spec fn session_verdict(user: UserView, matches: Option<bool>) -> Result<
    (Seq<char>, Seq<char>),
    AccountError,
> {
    match matches {
        Some(true) => Ok((user.id, user.username)),
        Some(false) => Err(AccountError::InvalidCredentials),
        None => Err(AccountError::VerificationFailed),
    }
}

/// Opens a session for `user` where `matches` says that the password is
/// the account's.
pub fn open_session(user: &User, matches: Option<bool>) -> (outcome: Result<Session, AccountError>)
    ensures
        match outcome {
            Ok(session) => session_verdict(user@, matches) == Ok::<
                (Seq<char>, Seq<char>),
                AccountError,
            >((session.user_id@, session.username@)),
            Err(error) => session_verdict(user@, matches) == Err::<
                (Seq<char>, Seq<char>),
                AccountError,
            >(error),
        },
{
    match matches {
        Some(true) => Ok(Session { user_id: user.id.clone(), username: user.username.clone() }),
        Some(false) => Err(AccountError::InvalidCredentials),
        None => Err(AccountError::VerificationFailed),
    }
}

/// What logging in with a name and a password leads to: the session of the
/// first account of that name where `bcrypt` finds the password to match
/// its hash, and an error otherwise.
pub open spec fn login_verdict(users: Seq<UserView>, username: Seq<char>, password: Seq<char>) -> Result<
    (Seq<char>, Seq<char>),
    AccountError,
> {
    match user_named(users, username) {
        Some(user) => session_verdict(user, bcrypt_verdict(password, user.password_hash)),
        None => Err(AccountError::InvalidCredentials),
    }
}

/// Logs in: finds the account named `username` and opens a session where
/// `password` matches its hash.
pub fn login(storage: &UserStorage, username: &str, password: &str) -> (outcome: Result<
    Session,
    AccountError,
>)
    ensures
        match outcome {
            Ok(session) => login_verdict(storage.users(), username@, password@) == Ok::<
                (Seq<char>, Seq<char>),
                AccountError,
            >((session.user_id@, session.username@)),
            Err(error) => login_verdict(storage.users(), username@, password@) == Err::<
                (Seq<char>, Seq<char>),
                AccountError,
            >(error),
        },
{
    let user = match storage.get_user_by_username(username) {
        Some(user) => user,
        None => { return Err(AccountError::InvalidCredentials); },
    };
    let matches = password_matches(password, user.password_hash.as_str());
    open_session(&user, matches)
}

/// What `bcrypt` finds when it compares `password` with `hash`: whether
/// they match, or `None` where it cannot tell, as for a text that is no hash.
pub uninterp spec fn bcrypt_verdict(password: Seq<char>, hash: Seq<char>) -> Option<bool>;

/// Calls `bcrypt::hash` with `bcrypt::DEFAULT_COST`.
///
/// The salt is random, so nothing is claimed about the hash; `None` stands
/// for an error of `bcrypt`.
#[verifier::external_body]
fn hash_password(password: &str) -> (hash: Option<String>) {
    match bcrypt::hash(password, bcrypt::DEFAULT_COST) {
        Ok(hash) => Some(hash),
        Err(_) => None,
    }
}

/// Calls `bcrypt::verify`.
///
/// The contract only names the outcome: it depends on the password and the
/// hash alone. `None` stands for an error of `bcrypt`.
#[verifier::external_body]
fn password_matches(password: &str, hash: &str) -> (matches: Option<bool>)
    ensures
        matches == bcrypt_verdict(password@, hash@),
{
    match bcrypt::verify(password, hash) {
        Ok(same) => Some(same),
        Err(_) => None,
    }
}

} // verus!
