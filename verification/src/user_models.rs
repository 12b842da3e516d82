//! Accounts and the files that their owners have uploaded.

use crate::identity::fresh_id;
use crate::text::texts_view;
use crate::time::Timestamp;
use vstd::prelude::*;

verus! {

/// An account.
#[derive(Debug, PartialEq, Eq)]
pub struct User {
    /// Opaque identifier, assigned at creation.
    pub id: String,
    /// The name by which the account is found; unique in a store.
    pub username: String,
    /// The password as `bcrypt` hashed it.
    pub password_hash: String,
    /// The instant of creation.
    pub created_at: Timestamp,
}

/// The mathematical content of a [`User`].
pub struct UserView {
    pub id: Seq<char>,
    pub username: Seq<char>,
    pub password_hash: Seq<char>,
    pub created_at: Timestamp,
}

impl View for User {
    type V = UserView;

    open spec fn view(&self) -> UserView {
        UserView {
            id: self.id@,
            username: self.username@,
            password_hash: self.password_hash@,
            created_at: self.created_at,
        }
    }
}

impl Clone for User {
    fn clone(&self) -> (copy: User)
        ensures
            copy == *self,
    {
        User {
            id: self.id.clone(),
            username: self.username.clone(),
            password_hash: self.password_hash.clone(),
            created_at: self.created_at,
        }
    }
}

impl User {
    /// Creates an account with a fresh random identifier, created now.
    ///
    /// The identifier and the creation time come from outside and are not
    /// determined by the arguments.
    pub fn new(username: String, password_hash: String) -> (user: User)
        ensures
            user.username == username,
            user.password_hash == password_hash,
    {
        let id = fresh_id();
        let created_at = Timestamp::now();
        User::with_identity(id, created_at, username, password_hash)
    }

    /// Creates an account with the given identifier and creation time.
    pub fn with_identity(
        id: String,
        created_at: Timestamp,
        username: String,
        password_hash: String,
    ) -> (user: User)
        ensures
            user == (User { id, username, password_hash, created_at }),
    {
        User { id, username, password_hash, created_at }
    }
}

/// A text file that an account has uploaded, with the tags it carries.
#[derive(Debug, PartialEq, Eq)]
pub struct UploadedFile {
    /// Opaque identifier, assigned at creation.
    pub id: String,
    /// The identifier of the owning account.
    pub user_id: String,
    pub filename: String,
    pub content: String,
    /// The instant of the upload.
    pub uploaded_at: Timestamp,
    /// The tags, in the order in which they were added; none occurs twice
    /// where tags are only added through the store.
    pub tags: Vec<String>,
}

/// The mathematical content of an [`UploadedFile`].
pub struct UploadedFileView {
    pub id: Seq<char>,
    pub user_id: Seq<char>,
    pub filename: Seq<char>,
    pub content: Seq<char>,
    pub uploaded_at: Timestamp,
    pub tags: Seq<Seq<char>>,
}

impl View for UploadedFile {
    type V = UploadedFileView;

    open spec fn view(&self) -> UploadedFileView {
        UploadedFileView {
            id: self.id@,
            user_id: self.user_id@,
            filename: self.filename@,
            content: self.content@,
            uploaded_at: self.uploaded_at,
            tags: texts_view(self.tags@),
        }
    }
}

/// Copies a list of texts.
pub fn clone_texts(texts: &Vec<String>) -> (copy: Vec<String>)
    ensures
        copy@ == texts@,
{
    let mut copy: Vec<String> = Vec::new();
    let mut i: usize = 0;
    while i < texts.len()
        invariant
            i <= texts.len(),
            copy@ =~= texts@.take(i as int),
        decreases texts.len() - i,
    {
        copy.push(texts[i].clone());
        i += 1;
    }
    assert(texts@.take(i as int) =~= texts@);
    copy
}

impl Clone for UploadedFile {
    fn clone(&self) -> (copy: UploadedFile)
        ensures
            copy@ == self@,
    {
        UploadedFile {
            id: self.id.clone(),
            user_id: self.user_id.clone(),
            filename: self.filename.clone(),
            content: self.content.clone(),
            uploaded_at: self.uploaded_at,
            tags: clone_texts(&self.tags),
        }
    }
}

impl UploadedFile {
    /// Creates an untagged file with a fresh random identifier, uploaded now.
    ///
    /// The identifier and the upload time come from outside and are not
    /// determined by the arguments.
    pub fn new(user_id: String, filename: String, content: String) -> (file: UploadedFile)
        ensures
            file.user_id == user_id,
            file.filename == filename,
            file.content == content,
            file.tags@.len() == 0,
    {
        let id = fresh_id();
        let uploaded_at = Timestamp::now();
        UploadedFile::with_identity(id, uploaded_at, user_id, filename, content)
    }

    /// Creates an untagged file with the given identifier and upload time.
    pub fn with_identity(
        id: String,
        uploaded_at: Timestamp,
        user_id: String,
        filename: String,
        content: String,
    ) -> (file: UploadedFile)
        ensures
            file.id == id,
            file.user_id == user_id,
            file.filename == filename,
            file.content == content,
            file.uploaded_at == uploaded_at,
            file.tags@.len() == 0,
    {
        UploadedFile { id, user_id, filename, content, uploaded_at, tags: Vec::new() }
    }
}

} // verus!
