//! What the account that is logged in does with its files: uploading,
//! tagging, untagging and listing by tag.
//!
//! Every operation addresses files by their identifier together with the
//! account of the session, so it reaches the files of that account only.

use crate::accounts::Session;
use crate::search::{lemma_first_index, lemma_first_index_agrees};
use crate::text::{
    chars_of, is_blank, is_keyword, list_items, spells_keyword, split_list, text_is_blank,
    texts_view, trim, trim_bounds,
};
use crate::user_models::{UploadedFile, UploadedFileView};
use crate::user_storage::{
    carries_tag, file_position, file_with, files_of, has_file, is_file, with_tag, with_tag_removed,
    UserStorage,
};
use vstd::prelude::*;

verus! {

/// Why a command on files is turned down.
#[derive(Clone, Copy, Debug, PartialEq, Eq, Structural)]
pub enum CommandError {
    /// The account has no file with that identifier.
    FileNotFound,
    /// The list of tags holds no item.
    NoValidTags,
    /// The list of file identifiers holds no item.
    NoValidFileIds,
    /// None of the files carried the tag, though some of them were found.
    TagNotOnAnyFile,
    /// The file to upload is no `.txt` file.
    UnsupportedFileType,
    /// The file to upload is empty or holds white space only.
    EmptyFile,
}

/// Checks the extension of the name of a file to upload: only `txt` passes.
pub fn check_file_type(extension: &str) -> (checked: Result<(), CommandError>)
    ensures
        checked == if extension@ == "txt"@ {
            Ok::<(), CommandError>(())
        } else {
            Err::<(), CommandError>(CommandError::UnsupportedFileType)
        },
{
    if extension.to_owned() == "txt".to_owned() {
        Ok(())
    } else {
        Err(CommandError::UnsupportedFileType)
    }
}

/// Checks the content of a file to upload: it must not be blank.
pub fn check_content(content: &str) -> (checked: Result<(), CommandError>)
    ensures
        checked == if is_blank(content@) {
            Err::<(), CommandError>(CommandError::EmptyFile)
        } else {
            Ok::<(), CommandError>(())
        },
{
    if text_is_blank(content) {
        Err(CommandError::EmptyFile)
    } else {
        Ok(())
    }
}

/// The answer is `yes` or `y`, in any case, with any white space around it.
pub open spec fn is_consent(answer: Seq<char>) -> bool {
    is_keyword(trim(answer), "yes"@) || is_keyword(trim(answer), "y"@)
}

/// Tells whether the answer to a request for confirmation is a consent.
pub fn confirms(answer: &str) -> (b: bool)
    ensures
        b == is_consent(answer@),
{
    let chars = chars_of(answer);
    assert(chars@.subrange(0, chars.len() as int) =~= answer@);
    let (lo, hi) = trim_bounds(&chars, 0, chars.len());
    spells_keyword(&chars, lo, hi, "yes") || spells_keyword(&chars, lo, hi, "y")
}

/// Stores a new file of the account that is logged in and returns the
/// stored copy. The file gets a fresh identifier and carries no tag.
pub fn upload(storage: &mut UserStorage, session: &Session, filename: String, content: String) -> (stored:
    UploadedFile)
    ensures
        final(storage).users() == old(storage).users(),
        final(storage).files() == old(storage).files().push(stored@),
        stored.user_id@ == session.user_id@,
        stored.filename@ == filename@,
        stored.content@ == content@,
        stored.tags@.len() == 0,
{
    let file = UploadedFile::new(session.user_id.clone(), filename, content);
    let stored = storage.add_file(file);
    assert(stored@.tags.len() == stored.tags@.len());
    stored
}

/// `files` after every tag of `tags` was added, in order, to the file
/// `file_id` of the account `user_id`.
pub open spec fn with_tags(
    files: Seq<UploadedFileView>,
    file_id: Seq<char>,
    user_id: Seq<char>,
    tags: Seq<Seq<char>>,
) -> Seq<UploadedFileView>
    decreases tags.len(),
{
    if tags.len() == 0 {
        files
    } else {
        with_tag(with_tags(files, file_id, user_id, tags.drop_last()), file_id, user_id, tags.last())
    }
}

/// Two lists of files are the same files but for their tags.
pub open spec fn same_but_tags(a: Seq<UploadedFileView>, b: Seq<UploadedFileView>) -> bool {
    &&& a.len() == b.len()
    &&& forall|i: int|
        0 <= i < a.len() ==> (#[trigger] a[i]).id == b[i].id && a[i].user_id == b[i].user_id
            && a[i].filename == b[i].filename && a[i].content == b[i].content && a[i].uploaded_at
            == b[i].uploaded_at
}

/// Files that differ in their tags only are found at the same places.
pub proof fn lemma_same_places(
    a: Seq<UploadedFileView>,
    b: Seq<UploadedFileView>,
    file_id: Seq<char>,
    user_id: Seq<char>,
)
    requires
        same_but_tags(a, b),
    ensures
        file_position(a, file_id, user_id) == file_position(b, file_id, user_id),
        has_file(a, file_id, user_id) == has_file(b, file_id, user_id),
{
    let wanted = is_file(file_id, user_id);
    assert forall|i: int| 0 <= i < a.len() implies wanted(#[trigger] a[i]) == wanted(b[i]) by {
        assert(a[i].id == b[i].id);
    }
    assert forall|i: int| 0 <= i < b.len() implies wanted(#[trigger] b[i]) == wanted(a[i]) by {
        assert(a[i].id == b[i].id);
    }
    lemma_first_index_agrees(b, a, wanted);
    lemma_first_index(a, wanted);
    lemma_first_index(b, wanted);
}

/// Adding and removing a tag changes nothing but tags.
pub proof fn lemma_tagging_keeps_files(
    files: Seq<UploadedFileView>,
    file_id: Seq<char>,
    user_id: Seq<char>,
    tag: Seq<char>,
)
    ensures
        same_but_tags(with_tag(files, file_id, user_id, tag), files),
        same_but_tags(with_tag_removed(files, file_id, user_id, tag), files),
{
    lemma_first_index(files, is_file(file_id, user_id));
}

/// Adding tags changes nothing but tags, and nothing at all where the
/// account has no such file.
pub proof fn lemma_with_tags_keeps_files(
    files: Seq<UploadedFileView>,
    file_id: Seq<char>,
    user_id: Seq<char>,
    tags: Seq<Seq<char>>,
)
    ensures
        same_but_tags(with_tags(files, file_id, user_id, tags), files),
        !has_file(files, file_id, user_id) ==> with_tags(files, file_id, user_id, tags) == files,
    decreases tags.len(),
{
    lemma_first_index(files, is_file(file_id, user_id));
    if tags.len() > 0 {
        let before = with_tags(files, file_id, user_id, tags.drop_last());
        lemma_with_tags_keeps_files(files, file_id, user_id, tags.drop_last());
        lemma_tagging_keeps_files(before, file_id, user_id, tags.last());
        lemma_same_places(before, files, file_id, user_id);
    }
}

/// Adds every tag of `tags`, in order, to the file `file_id` of the account
/// `user_id`; a tag that the file carries already is left out. Nothing
/// changes where the account has no such file.
pub fn add_tags(storage: &mut UserStorage, file_id: &str, user_id: &str, tags: &Vec<String>)
    ensures
        final(storage).users() == old(storage).users(),
        final(storage).files() == with_tags(
            old(storage).files(),
            file_id@,
            user_id@,
            texts_view(tags@),
        ),
{
    let ghost initial = storage.files();
    let ghost all = texts_view(tags@);
    let mut k: usize = 0;
    assert(all.take(0) =~= Seq::<Seq<char>>::empty());
    while k < tags.len()
        invariant
            k <= tags.len(),
            all == texts_view(tags@),
            storage.users() == old(storage).users(),
            storage.files() == with_tags(initial, file_id@, user_id@, all.take(k as int)),
        decreases tags.len() - k,
    {
        let _ = storage.add_tag_to_file(file_id, user_id, tags[k].clone());
        assert(all.take(k + 1).drop_last() =~= all.take(k as int));
        assert(all.take(k + 1).last() == tags[k as int]@);
        k += 1;
    }
    assert(all.take(k as int) =~= all);
}

/// What a tagging reports: the name of the file and the tags that were asked for.
#[derive(Debug, PartialEq, Eq)]
pub struct TagReport {
    pub filename: String,
    pub tags: Vec<String>,
}

/// Adds the tags of a comma-separated list to a file of the account that
/// is logged in. Fails where the account has no such file, and where the
/// list holds no tag.
pub fn tag_file(storage: &mut UserStorage, session: &Session, file_id: &str, tags: &str) -> (outcome:
    Result<TagReport, CommandError>)
    ensures
        final(storage).users() == old(storage).users(),
        match file_with(old(storage).files(), file_id@, session.user_id@) {
            None => {
                &&& outcome == Err::<TagReport, CommandError>(CommandError::FileNotFound)
                &&& final(storage).files() == old(storage).files()
            },
            Some(file) => if list_items(tags@).len() == 0 {
                &&& outcome == Err::<TagReport, CommandError>(CommandError::NoValidTags)
                &&& final(storage).files() == old(storage).files()
            } else {
                &&& outcome matches Ok(report)
                &&& report.filename@ == file.filename
                &&& texts_view(report.tags@) == list_items(tags@)
                &&& final(storage).files() == with_tags(
                    old(storage).files(),
                    file_id@,
                    session.user_id@,
                    list_items(tags@),
                )
            },
        },
{
    let file = match storage.get_file_by_id(file_id, session.user_id.as_str()) {
        Some(file) => file,
        None => { return Err(CommandError::FileNotFound); },
    };
    let tag_list = split_list(tags);
    if tag_list.len() == 0 {
        return Err(CommandError::NoValidTags);
    }
    add_tags(storage, file_id, session.user_id.as_str(), &tag_list);
    Ok(TagReport { filename: file.filename, tags: tag_list })
}

/// Removes a tag from a file of the account that is logged in and returns
/// the name of the file. Fails where the account has no such file.
pub fn untag_file(storage: &mut UserStorage, session: &Session, file_id: &str, tag: &str) -> (outcome:
    Result<String, CommandError>)
    ensures
        final(storage).users() == old(storage).users(),
        final(storage).files() == with_tag_removed(
            old(storage).files(),
            file_id@,
            session.user_id@,
            tag@,
        ),
        match file_with(old(storage).files(), file_id@, session.user_id@) {
            None => outcome == Err::<String, CommandError>(CommandError::FileNotFound),
            Some(file) => outcome matches Ok(filename) && filename@ == file.filename,
        },
{
    let file = match storage.get_file_by_id(file_id, session.user_id.as_str()) {
        Some(file) => file,
        None => { return Err(CommandError::FileNotFound); },
    };
    let _ = storage.remove_tag_from_file(file_id, session.user_id.as_str(), tag);
    Ok(file.filename)
}

/// The files of `files` that carry `tag`, in order.
pub open spec fn carrying(files: Seq<UploadedFileView>, tag: Seq<char>) -> Seq<UploadedFileView> {
    files.filter(|f: UploadedFileView| f.tags.contains(tag))
}

/// Returns the files of the account that is logged in that carry `tag`,
/// in the order of the store.
pub fn filter_files_by_tag(storage: &UserStorage, session: &Session, tag: &str) -> (found: Vec<
    UploadedFile,
>)
    ensures
        found@.map_values(|f: UploadedFile| f@) == carrying(
            files_of(storage.files(), session.user_id@),
            tag@,
        ),
{
    let wanted = tag.to_owned();
    let owned = storage.get_user_files(session.user_id.as_str());
    let ghost all = owned@.map_values(|f: UploadedFile| f@);
    let mut found: Vec<UploadedFile> = Vec::new();
    let mut i: usize = 0;
    assert(all.take(0) =~= Seq::<UploadedFileView>::empty());
    assert(carrying(all.take(0), tag@) =~= Seq::<UploadedFileView>::empty()) by {
        reveal(Seq::filter);
    }
    while i < owned.len()
        invariant
            i <= owned.len(),
            wanted@ == tag@,
            all == owned@.map_values(|f: UploadedFile| f@),
            found@.map_values(|f: UploadedFile| f@) =~= carrying(all.take(i as int), tag@),
        decreases owned.len() - i,
    {
        let file = &owned[i];
        proof {
            let pred = |f: UploadedFileView| f.tags.contains(tag@);
            assert(all.take(i + 1) =~= all.take(i as int).push(file@));
            all.take(i as int).lemma_filter_push(file@, pred);
        }
        if carries_tag(&file.tags, &wanted) {
            let ghost before = found@;
            found.push(file.clone());
            assert(found@.map_values(|f: UploadedFile| f@) =~= before.map_values(
                |f: UploadedFile| f@,
            ).push(file@));
        }
        i += 1;
    }
    assert(all.take(i as int) =~= all);
    found
}

/// `files` after the tags of `tags` were added to every file that the
/// account `user_id` has under an identifier of `ids`, one identifier
/// after the other.
pub open spec fn bulk_tagged(
    files: Seq<UploadedFileView>,
    ids: Seq<Seq<char>>,
    user_id: Seq<char>,
    tags: Seq<Seq<char>>,
) -> Seq<UploadedFileView>
    decreases ids.len(),
{
    if ids.len() == 0 {
        files
    } else {
        with_tags(bulk_tagged(files, ids.drop_last(), user_id, tags), ids.last(), user_id, tags)
    }
}

/// The identifiers of `ids` under which the account `user_id` has no file, in order.
pub open spec fn missing_ids(
    files: Seq<UploadedFileView>,
    ids: Seq<Seq<char>>,
    user_id: Seq<char>,
) -> Seq<Seq<char>> {
    ids.filter(|id: Seq<char>| !has_file(files, id, user_id))
}

/// What a tagging of several files reports.
#[derive(Debug, PartialEq, Eq)]
pub struct BulkTagReport {
    /// How many of the identifiers led to a file.
    pub tagged: usize,
    /// The tags that were asked for.
    pub tags: Vec<String>,
    /// The identifiers that led to no file.
    pub missing: Vec<String>,
}

/// Being the same files but for the tags carries over from one list to the next.
pub proof fn lemma_same_but_tags_chain(
    a: Seq<UploadedFileView>,
    b: Seq<UploadedFileView>,
    c: Seq<UploadedFileView>,
)
    requires
        same_but_tags(a, b),
        same_but_tags(b, c),
    ensures
        same_but_tags(a, c),
{
    assert forall|i: int| 0 <= i < a.len() implies (#[trigger] a[i]).id == c[i].id && a[i].user_id
        == c[i].user_id && a[i].filename == c[i].filename && a[i].content == c[i].content
        && a[i].uploaded_at == c[i].uploaded_at by {
        assert(a[i].id == b[i].id && b[i].id == c[i].id);
    }
}

/// Adds the tags of a comma-separated list to every file of a
/// comma-separated list of identifiers, for the account that is logged in.
/// Identifiers that lead to no file are reported. Fails where either list
/// holds no item.
pub fn bulk_tag_files(storage: &mut UserStorage, session: &Session, file_ids: &str, tags: &str) -> (outcome:
    Result<BulkTagReport, CommandError>)
    ensures
        final(storage).users() == old(storage).users(),
        if list_items(file_ids@).len() == 0 {
            &&& outcome == Err::<BulkTagReport, CommandError>(CommandError::NoValidFileIds)
            &&& final(storage).files() == old(storage).files()
        } else if list_items(tags@).len() == 0 {
            &&& outcome == Err::<BulkTagReport, CommandError>(CommandError::NoValidTags)
            &&& final(storage).files() == old(storage).files()
        } else {
            &&& outcome matches Ok(report)
            &&& final(storage).files() == bulk_tagged(
                old(storage).files(),
                list_items(file_ids@),
                session.user_id@,
                list_items(tags@),
            )
            &&& texts_view(report.tags@) == list_items(tags@)
            &&& texts_view(report.missing@) == missing_ids(
                old(storage).files(),
                list_items(file_ids@),
                session.user_id@,
            )
            &&& report.tagged + report.missing.len() == list_items(file_ids@).len()
        },
{
    let ids = split_list(file_ids);
    let tag_list = split_list(tags);
    if ids.len() == 0 {
        return Err(CommandError::NoValidFileIds);
    }
    if tag_list.len() == 0 {
        return Err(CommandError::NoValidTags);
    }
    let ghost initial = storage.files();
    let ghost all = texts_view(ids@);
    let ghost user_id = session.user_id@;
    let ghost wanted_tags = texts_view(tag_list@);
    let mut tagged: usize = 0;
    let mut missing: Vec<String> = Vec::new();
    let mut k: usize = 0;
    proof {
        assert(all.take(0) =~= Seq::<Seq<char>>::empty());
        assert(missing_ids(initial, all.take(0), user_id) =~= Seq::<Seq<char>>::empty()) by {
            reveal(Seq::filter);
        }
    }
    while k < ids.len()
        invariant
            k <= ids.len(),
            all == texts_view(ids@),
            user_id == session.user_id@,
            wanted_tags == texts_view(tag_list@),
            storage.users() == old(storage).users(),
            storage.files() == bulk_tagged(initial, all.take(k as int), user_id, wanted_tags),
            same_but_tags(storage.files(), initial),
            texts_view(missing@) == missing_ids(initial, all.take(k as int), user_id),
            tagged + missing.len() == k,
        decreases ids.len() - k,
    {
        let ghost current = storage.files();
        let ghost id = ids[k as int]@;
        proof {
            assert(all.take(k + 1).drop_last() =~= all.take(k as int));
            assert(all.take(k + 1).last() == id);
            assert(all.take(k + 1) =~= all.take(k as int).push(id));
            all.take(k as int).lemma_filter_push(id, |id: Seq<char>| !has_file(initial, id, user_id));
            lemma_same_places(current, initial, id, user_id);
            lemma_first_index(current, is_file(id, user_id));
            lemma_with_tags_keeps_files(current, id, user_id, wanted_tags);
            lemma_same_but_tags_chain(
                with_tags(current, id, user_id, wanted_tags),
                current,
                initial,
            );
        }
        match storage.get_file_by_id(ids[k].as_str(), session.user_id.as_str()) {
            Some(_) => {
                add_tags(storage, ids[k].as_str(), session.user_id.as_str(), &tag_list);
                tagged += 1;
            },
            None => {
                let ghost before = missing@;
                missing.push(ids[k].clone());
                assert(texts_view(missing@) =~= texts_view(before).push(id));
            },
        }
        k += 1;
    }
    assert(all.take(k as int) =~= all);
    Ok(BulkTagReport { tagged, tags: tag_list, missing })
}

/// The state of an untagging of several files.
pub struct UntagTally {
    /// The files as they stand.
    pub files: Seq<UploadedFileView>,
    /// How many files lost the tag.
    pub untagged: nat,
    /// The names of the files that were found without the tag, in order.
    pub lacking: Seq<Seq<char>>,
    /// The identifiers that led to no file, in order.
    pub missing: Seq<Seq<char>>,
}

/// The tally after the file `file_id` of the account `user_id` was
/// handled: a file that carries the tag loses it, a file without the tag
/// is noted by its name, and an identifier that leads to no file is noted.
pub open spec fn untag_next(
    tally: UntagTally,
    file_id: Seq<char>,
    user_id: Seq<char>,
    tag: Seq<char>,
) -> UntagTally {
    match file_with(tally.files, file_id, user_id) {
        Some(file) => if file.tags.contains(tag) {
            UntagTally {
                files: with_tag_removed(tally.files, file_id, user_id, tag),
                untagged: tally.untagged + 1,
                ..tally
            }
        } else {
            UntagTally { lacking: tally.lacking.push(file.filename), ..tally }
        },
        None => UntagTally { missing: tally.missing.push(file_id), ..tally },
    }
}

/// The tally after the identifiers of `ids` were handled one after the other.
pub open spec fn untag_all(
    files: Seq<UploadedFileView>,
    ids: Seq<Seq<char>>,
    user_id: Seq<char>,
    tag: Seq<char>,
) -> UntagTally
    decreases ids.len(),
{
    if ids.len() == 0 {
        UntagTally {
            files,
            untagged: 0,
            lacking: Seq::<Seq<char>>::empty(),
            missing: Seq::<Seq<char>>::empty(),
        }
    } else {
        untag_next(untag_all(files, ids.drop_last(), user_id, tag), ids.last(), user_id, tag)
    }
}

/// What an untagging of several files reports.
#[derive(Debug, PartialEq, Eq)]
pub struct BulkUntagReport {
    /// How many files lost the tag.
    pub untagged: usize,
    /// The names of the files that were found without the tag.
    pub lacking: Vec<String>,
    /// The identifiers that led to no file.
    pub missing: Vec<String>,
}

impl BulkUntagReport {
    /// The verdict on the untagging: it failed where no file lost the tag
    /// though some file was found.
    pub open spec fn spec_verdict(self) -> Result<(), CommandError> {
        if self.untagged == 0 && self.lacking@.len() > 0 {
            Err(CommandError::TagNotOnAnyFile)
        } else {
            Ok(())
        }
    }

    /// Tells whether the untagging failed: no file lost the tag though
    /// some file was found.
    pub fn verdict(&self) -> (v: Result<(), CommandError>)
        ensures
            v == self.spec_verdict(),
    {
        if self.untagged == 0 && self.lacking.len() > 0 {
            Err(CommandError::TagNotOnAnyFile)
        } else {
            Ok(())
        }
    }
}

/// Removes a tag from every file of a comma-separated list of identifiers,
/// for the account that is logged in. Files without the tag and
/// identifiers without a file are reported. Fails where the list holds no
/// identifier.
pub fn bulk_untag_files(storage: &mut UserStorage, session: &Session, file_ids: &str, tag: &str) -> (outcome:
    Result<BulkUntagReport, CommandError>)
    ensures
        final(storage).users() == old(storage).users(),
        if list_items(file_ids@).len() == 0 {
            &&& outcome == Err::<BulkUntagReport, CommandError>(CommandError::NoValidFileIds)
            &&& final(storage).files() == old(storage).files()
        } else {
            let tally = untag_all(
                old(storage).files(),
                list_items(file_ids@),
                session.user_id@,
                tag@,
            );
            &&& final(storage).files() == tally.files
            &&& outcome matches Ok(report)
            &&& report.untagged == tally.untagged
            &&& texts_view(report.lacking@) == tally.lacking
            &&& texts_view(report.missing@) == tally.missing
        },
{
    let ids = split_list(file_ids);
    if ids.len() == 0 {
        return Err(CommandError::NoValidFileIds);
    }
    let unwanted = tag.to_owned();
    let ghost initial = storage.files();
    let ghost all = texts_view(ids@);
    let ghost user_id = session.user_id@;
    let mut untagged: usize = 0;
    let mut lacking: Vec<String> = Vec::new();
    let mut missing: Vec<String> = Vec::new();
    let mut k: usize = 0;
    proof {
        assert(all.take(0) =~= Seq::<Seq<char>>::empty());
        assert(texts_view(lacking@) =~= Seq::<Seq<char>>::empty());
        assert(texts_view(missing@) =~= Seq::<Seq<char>>::empty());
    }
    while k < ids.len()
        invariant
            k <= ids.len(),
            all == texts_view(ids@),
            user_id == session.user_id@,
            unwanted@ == tag@,
            storage.users() == old(storage).users(),
            untagged <= k,
            untag_all(initial, all.take(k as int), user_id, tag@) == (UntagTally {
                files: storage.files(),
                untagged: untagged as nat,
                lacking: texts_view(lacking@),
                missing: texts_view(missing@),
            }),
        decreases ids.len() - k,
    {
        let ghost id = ids[k as int]@;
        proof {
            assert(all.take(k + 1).drop_last() =~= all.take(k as int));
            assert(all.take(k + 1).last() == id);
        }
        match storage.get_file_by_id(ids[k].as_str(), session.user_id.as_str()) {
            Some(file) => {
                if carries_tag(&file.tags, &unwanted) {
                    let _ = storage.remove_tag_from_file(
                        ids[k].as_str(),
                        session.user_id.as_str(),
                        tag,
                    );
                    untagged += 1;
                } else {
                    let ghost before = lacking@;
                    lacking.push(file.filename.clone());
                    assert(texts_view(lacking@) =~= texts_view(before).push(file@.filename));
                }
            },
            None => {
                let ghost before = missing@;
                missing.push(ids[k].clone());
                assert(texts_view(missing@) =~= texts_view(before).push(id));
            },
        }
        k += 1;
    }
    assert(all.take(k as int) =~= all);
    Ok(BulkUntagReport { untagged, lacking, missing })
}

} // verus!
