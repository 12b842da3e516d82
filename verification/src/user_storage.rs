//! The account store: accounts, uploaded files and the tags of the files.
//!
//! Accounts and files are kept in the order in which they were added. A
//! file is addressed by its own identifier together with the identifier of
//! its owner, so no account can reach a file of another.

use crate::search::{first_index, has_any, lemma_first_index, lemma_first_index_is};
use crate::text::texts_view;
use crate::user_models::{UploadedFile, UploadedFileView, User, UserView};
use vstd::prelude::*;

verus! {

/// Why the account store refuses a request.
#[derive(Clone, Copy, Debug, PartialEq, Eq, Structural)]
pub enum UserStorageError {
    /// An account with that name exists already.
    UsernameTaken,
    /// The owner has no file with that identifier.
    FileNotFound,
}

impl UserStorageError {
    /// The explanation of the refusal.
    pub open spec fn text(self) -> Seq<char> {
        match self {
            UserStorageError::UsernameTaken => "Username already exists"@,
            UserStorageError::FileNotFound => "File not found"@,
        }
    }

    /// Writes the explanation of the refusal.
    pub fn message(&self) -> (m: String)
        ensures
            m@ == self.text(),
    {
        match self {
            UserStorageError::UsernameTaken => "Username already exists".to_owned(),
            UserStorageError::FileNotFound => "File not found".to_owned(),
        }
    }
}

/// The test for an account named `name`.
pub open spec fn named(name: Seq<char>) -> spec_fn(UserView) -> bool {
    |u: UserView| u.username == name
}

/// Some account in `users` is named `name`.
pub open spec fn name_taken(users: Seq<UserView>, name: Seq<char>) -> bool {
    has_any(users, named(name))
}

/// The first account in `users` that is named `name`, if there is one.
pub open spec fn user_named(users: Seq<UserView>, name: Seq<char>) -> Option<UserView> {
    match first_index(users, named(name)) {
        Some(i) => Some(users[i]),
        None => None,
    }
}

/// No two accounts in `users` share a name.
pub open spec fn names_distinct(users: Seq<UserView>) -> bool {
    forall|i: int, j: int|
        0 <= i < users.len() && 0 <= j < users.len() && i != j ==> (#[trigger] users[i]).username
            != (#[trigger] users[j]).username
}

/// The test for the file `file_id` of the account `user_id`.
pub open spec fn is_file(file_id: Seq<char>, user_id: Seq<char>) -> spec_fn(
    UploadedFileView,
) -> bool {
    |f: UploadedFileView| f.id == file_id && f.user_id == user_id
}

/// Some place in `files` holds the file `file_id` of the account `user_id`.
pub open spec fn has_file(files: Seq<UploadedFileView>, file_id: Seq<char>, user_id: Seq<char>) -> bool {
    has_any(files, is_file(file_id, user_id))
}

/// The first place in `files` that holds the file `file_id` of the account
/// `user_id`, if there is one.
pub open spec fn file_position(
    files: Seq<UploadedFileView>,
    file_id: Seq<char>,
    user_id: Seq<char>,
) -> Option<int> {
    first_index(files, is_file(file_id, user_id))
}

/// The file `file_id` of the account `user_id`, if `files` holds it.
pub open spec fn file_with(
    files: Seq<UploadedFileView>,
    file_id: Seq<char>,
    user_id: Seq<char>,
) -> Option<UploadedFileView> {
    match file_position(files, file_id, user_id) {
        Some(i) => Some(files[i]),
        None => None,
    }
}

/// The files of `files` that belong to the account `user_id`, in order.
pub open spec fn files_of(files: Seq<UploadedFileView>, user_id: Seq<char>) -> Seq<
    UploadedFileView,
> {
    files.filter(|f: UploadedFileView| f.user_id == user_id)
}

/// `tags` without any occurrence of `tag`, in order.
pub open spec fn without_tag(tags: Seq<Seq<char>>, tag: Seq<char>) -> Seq<Seq<char>> {
    tags.filter(|t: Seq<char>| t != tag)
}

/// `file` with `tag` added behind its tags, unless it carries `tag` already.
pub open spec fn tagged(file: UploadedFileView, tag: Seq<char>) -> UploadedFileView {
    if file.tags.contains(tag) {
        file
    } else {
        UploadedFileView { tags: file.tags.push(tag), ..file }
    }
}

/// `file` without any occurrence of `tag` among its tags.
pub open spec fn untagged(file: UploadedFileView, tag: Seq<char>) -> UploadedFileView {
    UploadedFileView { tags: without_tag(file.tags, tag), ..file }
}

/// `files` after `tag` was added to the file `file_id` of the account
/// `user_id`; `files` itself where there is no such file.
pub open spec fn with_tag(
    files: Seq<UploadedFileView>,
    file_id: Seq<char>,
    user_id: Seq<char>,
    tag: Seq<char>,
) -> Seq<UploadedFileView> {
    match file_position(files, file_id, user_id) {
        Some(i) => files.update(i, tagged(files[i], tag)),
        None => files,
    }
}

/// `files` after `tag` was removed from the file `file_id` of the account
/// `user_id`; `files` itself where there is no such file.
pub open spec fn with_tag_removed(
    files: Seq<UploadedFileView>,
    file_id: Seq<char>,
    user_id: Seq<char>,
    tag: Seq<char>,
) -> Seq<UploadedFileView> {
    match file_position(files, file_id, user_id) {
        Some(i) => files.update(i, untagged(files[i], tag)),
        None => files,
    }
}

/// The accounts and the uploaded files.
pub struct UserStorage {
    users: Vec<User>,
    files: Vec<UploadedFile>,
}

impl UserStorage {
    /// The accounts of the store, in the order in which they were added.
    pub closed spec fn users(&self) -> Seq<UserView> {
        self.users@.map_values(|u: User| u@)
    }

    /// The files of the store, in the order in which they were added.
    pub closed spec fn files(&self) -> Seq<UploadedFileView> {
        self.files@.map_values(|f: UploadedFile| f@)
    }

    /// Makes a store that holds the accounts and files of two snapshots, in
    /// their order. Empty snapshots give an empty store.
    pub fn new(users: Vec<User>, files: Vec<UploadedFile>) -> (store: UserStorage)
        ensures
            store.users() == users@.map_values(|u: User| u@),
            store.files() == files@.map_values(|f: UploadedFile| f@),
    {
        UserStorage { users, files }
    }

    /// Returns a copy of every account, in the order of the store.
    pub fn get_all_users(&self) -> (all: Vec<User>)
        ensures
            all@.map_values(|u: User| u@) == self.users(),
    {
        let mut all: Vec<User> = Vec::new();
        let mut i: usize = 0;
        while i < self.users.len()
            invariant
                i <= self.users.len(),
                all@.map_values(|u: User| u@) =~= self.users().take(i as int),
            decreases self.users.len() - i,
        {
            let ghost before = all@;
            all.push(self.users[i].clone());
            assert(all@.map_values(|u: User| u@) =~= before.map_values(|u: User| u@).push(
                self.users()[i as int],
            ));
            i += 1;
        }
        assert(self.users().take(i as int) =~= self.users());
        all
    }

    /// Returns a copy of every file, in the order of the store.
    pub fn get_all_files(&self) -> (all: Vec<UploadedFile>)
        ensures
            all@.map_values(|f: UploadedFile| f@) == self.files(),
    {
        let mut all: Vec<UploadedFile> = Vec::new();
        let mut i: usize = 0;
        while i < self.files.len()
            invariant
                i <= self.files.len(),
                all@.map_values(|f: UploadedFile| f@) =~= self.files().take(i as int),
            decreases self.files.len() - i,
        {
            let ghost before = all@;
            all.push(self.files[i].clone());
            assert(all@.map_values(|f: UploadedFile| f@) =~= before.map_values(
                |f: UploadedFile| f@,
            ).push(self.files()[i as int]));
            i += 1;
        }
        assert(self.files().take(i as int) =~= self.files());
        all
    }

    /// Finds the first account named `username`.
    fn find_user(&self, username: &str) -> (place: Option<usize>)
        ensures
            first_index(self.users(), named(username@)) == match place {
                Some(i) => Some(i as int),
                None => None,
            },
            place matches Some(i) ==> i < self.users.len(),
    {
        let wanted = username.to_owned();
        let mut i: usize = 0;
        while i < self.users.len()
            invariant
                i <= self.users.len(),
                wanted@ == username@,
                forall|j: int| 0 <= j < i ==> !named(username@)(#[trigger] self.users()[j]),
            decreases self.users.len() - i,
        {
            if self.users[i].username == wanted {
                proof {
                    assert(named(username@)(self.users()[i as int]));
                    lemma_first_index_is(self.users(), named(username@), i as int);
                }
                return Some(i);
            }
            i += 1;
        }
        proof {
            lemma_first_index(self.users(), named(username@));
        }
        None
    }

    /// Finds the first place that holds the file `file_id` of the account `user_id`.
    fn find_file(&self, file_id: &str, user_id: &str) -> (place: Option<usize>)
        ensures
            file_position(self.files(), file_id@, user_id@) == match place {
                Some(i) => Some(i as int),
                None => None,
            },
            place matches Some(i) ==> i < self.files.len(),
    {
        let wanted_file = file_id.to_owned();
        let wanted_user = user_id.to_owned();
        let mut i: usize = 0;
        while i < self.files.len()
            invariant
                i <= self.files.len(),
                wanted_file@ == file_id@,
                wanted_user@ == user_id@,
                forall|j: int|
                    0 <= j < i ==> !is_file(file_id@, user_id@)(#[trigger] self.files()[j]),
            decreases self.files.len() - i,
        {
            if self.files[i].id == wanted_file && self.files[i].user_id == wanted_user {
                proof {
                    assert(is_file(file_id@, user_id@)(self.files()[i as int]));
                    lemma_first_index_is(self.files(), is_file(file_id@, user_id@), i as int);
                }
                return Some(i);
            }
            i += 1;
        }
        proof {
            lemma_first_index(self.files(), is_file(file_id@, user_id@));
        }
        None
    }

    /// Adds an account, unless an account of that name exists already, and
    /// returns the stored copy.
    pub fn create_user(&mut self, user: User) -> (outcome: Result<User, UserStorageError>)
        ensures
            final(self).files() == old(self).files(),
            names_distinct(old(self).users()) ==> names_distinct(final(self).users()),
            match outcome {
                Ok(stored) => {
                    &&& !name_taken(old(self).users(), user.username@)
                    &&& final(self).users() == old(self).users().push(user@)
                    &&& stored == user
                },
                Err(error) => {
                    &&& error == UserStorageError::UsernameTaken
                    &&& name_taken(old(self).users(), user.username@)
                    &&& final(self).users() == old(self).users()
                },
            },
    {
        proof {
            lemma_first_index(self.users(), named(user.username@));
        }
        match self.find_user(user.username.as_str()) {
            Some(_) => Err(UserStorageError::UsernameTaken),
            None => {
                let stored = user.clone();
                self.users.push(user);
                assert(self.users() =~= old(self).users().push(user@));
                assert(names_distinct(old(self).users()) ==> names_distinct(self.users())) by {
                    let before = old(self).users();
                    let after = self.users();
                    if names_distinct(before) {
                        assert forall|i: int, j: int|
                            0 <= i < after.len() && 0 <= j < after.len() && i != j implies (
                        #[trigger] after[i]).username != (#[trigger] after[j]).username by {
                            if i < before.len() {
                                assert(after[i] == before[i]);
                                assert(!named(user.username@)(before[i]));
                            }
                            if j < before.len() {
                                assert(after[j] == before[j]);
                                assert(!named(user.username@)(before[j]));
                            }
                        }
                    }
                }
                Ok(stored)
            },
        }
    }

    /// Returns a copy of the first account named `username`, if there is one.
    pub fn get_user_by_username(&self, username: &str) -> (found: Option<User>)
        ensures
            match found {
                Some(user) => user_named(self.users(), username@) == Some(user@),
                None => user_named(self.users(), username@) is None,
            },
    {
        match self.find_user(username) {
            Some(i) => Some(self.users[i].clone()),
            None => None,
        }
    }

    /// Appends `file` and returns the stored copy.
    pub fn add_file(&mut self, file: UploadedFile) -> (stored: UploadedFile)
        ensures
            final(self).files() == old(self).files().push(file@),
            final(self).users() == old(self).users(),
            stored@ == file@,
    {
        let stored = file.clone();
        self.files.push(file);
        assert(self.files() =~= old(self).files().push(file@));
        stored
    }

    /// Returns a copy of every file of the account `user_id`, in the order
    /// of the store.
    pub fn get_user_files(&self, user_id: &str) -> (owned: Vec<UploadedFile>)
        ensures
            owned@.map_values(|f: UploadedFile| f@) == files_of(self.files(), user_id@),
    {
        let wanted = user_id.to_owned();
        let mut owned: Vec<UploadedFile> = Vec::new();
        let mut i: usize = 0;
        assert(self.files().take(0) =~= Seq::<UploadedFileView>::empty());
        assert(files_of(self.files().take(0), user_id@) =~= Seq::<UploadedFileView>::empty()) by {
            reveal(Seq::filter);
        }
        while i < self.files.len()
            invariant
                i <= self.files.len(),
                wanted@ == user_id@,
                owned@.map_values(|f: UploadedFile| f@) =~= files_of(
                    self.files().take(i as int),
                    user_id@,
                ),
            decreases self.files.len() - i,
        {
            let file = &self.files[i];
            proof {
                let pred = |f: UploadedFileView| f.user_id == user_id@;
                assert(self.files().take(i + 1) =~= self.files().take(i as int).push(file@));
                self.files().take(i as int).lemma_filter_push(file@, pred);
            }
            if file.user_id == wanted {
                let ghost before = owned@;
                owned.push(file.clone());
                assert(owned@.map_values(|f: UploadedFile| f@) =~= before.map_values(
                    |f: UploadedFile| f@,
                ).push(file@));
            }
            i += 1;
        }
        assert(self.files().take(i as int) =~= self.files());
        owned
    }

    /// Returns a copy of the file `file_id` of the account `user_id`, if
    /// there is one.
    pub fn get_file_by_id(&self, file_id: &str, user_id: &str) -> (found: Option<UploadedFile>)
        ensures
            match found {
                Some(file) => file_with(self.files(), file_id@, user_id@) == Some(file@),
                None => file_with(self.files(), file_id@, user_id@) is None,
            },
    {
        match self.find_file(file_id, user_id) {
            Some(i) => Some(self.files[i].clone()),
            None => None,
        }
    }

    /// Adds `tag` to the file `file_id` of the account `user_id`, unless
    /// the file carries it already, and tells whether the file changed.
    /// Fails where the account has no such file.
    pub fn add_tag_to_file(&mut self, file_id: &str, user_id: &str, tag: String) -> (outcome:
        Result<bool, UserStorageError>)
        ensures
            final(self).users() == old(self).users(),
            final(self).files() == with_tag(old(self).files(), file_id@, user_id@, tag@),
            outcome == match file_with(old(self).files(), file_id@, user_id@) {
                Some(file) => Ok::<bool, UserStorageError>(!file.tags.contains(tag@)),
                None => Err::<bool, UserStorageError>(UserStorageError::FileNotFound),
            },
    {
        let i = match self.find_file(file_id, user_id) {
            Some(i) => i,
            None => { return Err(UserStorageError::FileNotFound); },
        };
        let ghost before = self.files()[i as int];
        if carries_tag(&self.files[i].tags, &tag) {
            assert(self.files() =~= old(self).files().update(i as int, tagged(before, tag@)));
            return Ok(false);
        }
        let mut file = self.files[i].clone();
        file.tags.push(tag);
        assert(file@.tags =~= before.tags.push(tag@));
        self.files.set(i, file);
        assert(self.files() =~= old(self).files().update(i as int, tagged(before, tag@)));
        Ok(true)
    }

    /// Removes every occurrence of `tag` from the file `file_id` of the
    /// account `user_id`. Fails where the account has no such file.
    pub fn remove_tag_from_file(&mut self, file_id: &str, user_id: &str, tag: &str) -> (outcome:
        Result<(), UserStorageError>)
        ensures
            final(self).users() == old(self).users(),
            final(self).files() == with_tag_removed(old(self).files(), file_id@, user_id@, tag@),
            outcome == match file_with(old(self).files(), file_id@, user_id@) {
                Some(_) => Ok::<(), UserStorageError>(()),
                None => Err::<(), UserStorageError>(UserStorageError::FileNotFound),
            },
    {
        let i = match self.find_file(file_id, user_id) {
            Some(i) => i,
            None => { return Err(UserStorageError::FileNotFound); },
        };
        let ghost before = self.files()[i as int];
        let mut file = self.files[i].clone();
        file.tags = tags_without(&file.tags, tag);
        self.files.set(i, file);
        assert(self.files() =~= old(self).files().update(i as int, untagged(before, tag@)));
        Ok(())
    }
}

/// Tells whether `tag` is among `tags`.
pub fn carries_tag(tags: &Vec<String>, tag: &String) -> (b: bool)
    ensures
        b == texts_view(tags@).contains(tag@),
{
    let mut i: usize = 0;
    while i < tags.len()
        invariant
            i <= tags.len(),
            forall|j: int| 0 <= j < i ==> (#[trigger] texts_view(tags@)[j]) != tag@,
        decreases tags.len() - i,
    {
        if tags[i] == *tag {
            assert(texts_view(tags@)[i as int] == tag@);
            return true;
        }
        i += 1;
    }
    false
}

/// Copies `tags` without any occurrence of `tag`.
pub fn tags_without(tags: &Vec<String>, tag: &str) -> (kept: Vec<String>)
    ensures
        texts_view(kept@) == without_tag(texts_view(tags@), tag@),
{
    let unwanted = tag.to_owned();
    let ghost all = texts_view(tags@);
    let mut kept: Vec<String> = Vec::new();
    let mut i: usize = 0;
    assert(all.take(0) =~= Seq::<Seq<char>>::empty());
    assert(without_tag(all.take(0), tag@) =~= Seq::<Seq<char>>::empty()) by {
        reveal(Seq::filter);
    }
    while i < tags.len()
        invariant
            i <= tags.len(),
            unwanted@ == tag@,
            all == texts_view(tags@),
            texts_view(kept@) =~= without_tag(all.take(i as int), tag@),
        decreases tags.len() - i,
    {
        proof {
            let pred = |t: Seq<char>| t != tag@;
            assert(all.take(i + 1) =~= all.take(i as int).push(tags[i as int]@));
            all.take(i as int).lemma_filter_push(tags[i as int]@, pred);
        }
        if tags[i] != unwanted {
            let ghost before = kept@;
            kept.push(tags[i].clone());
            assert(texts_view(kept@) =~= texts_view(before).push(tags[i as int]@));
        }
        i += 1;
    }
    assert(all.take(i as int) =~= all);
    kept
}

} // verus!
