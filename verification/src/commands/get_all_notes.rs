//! Reading all the live notes.

use vstd::prelude::*;

use crate::commands::new_note::{notes_dir, notes_folder};
use crate::error::{FailureKind, NoteError};
use crate::note::Note;
use crate::record::decoded;
use crate::storage::{
    Action, DirEntry, Effect, Entry, Location, Policy, Step, StepView, StorePath,
};
use crate::text::{extension, extension_of};

verus! {

/// What is to be done to read the live notes.
#[derive(Debug, PartialEq, Eq)]
pub enum ReadPlan {
    /// The notes directory is not there: make it. There are no notes.
    Bootstrap(Step),
    /// Read these files, in this order; each holds the record of a note.
    Read(Vec<StorePath>),
}

/// Whether a file of the name `name` holds a note: its extension is `json`.
pub open spec fn is_note_file(name: Seq<char>) -> bool {
    extension_of(name) == Some("json"@)
}

/// The files of the notes among the entries of the notes directory, in the
/// order of the listing.
pub open spec fn note_files(dir: Seq<char>, entries: Seq<Entry>) -> Seq<Location>
    decreases entries.len(),
{
    if entries.len() == 0 {
        Seq::empty()
    } else {
        let before = note_files(dir, entries.drop_last());
        if is_note_file(entries.last().name) {
            before.push(notes_folder(dir).join(entries.last().name))
        } else {
            before
        }
    }
}

/// The step that makes the notes directory.
pub open spec fn bootstrap_step(dir: Seq<char>) -> StepView {
    StepView {
        effect: Effect::EnsureDir(notes_folder(dir)),
        policy: Policy::Abort(FailureKind::Write),
    }
}

/// What a read of a file stands for: its text, or the message of its failure.
pub open spec fn read_view(read: Result<String, String>) -> Result<Seq<char>, Seq<char>> {
    match read {
        Ok(text) => Ok(text@),
        Err(message) => Err(message@),
    }
}

/// What each of `reads` stands for.
pub open spec fn read_views(reads: Seq<Result<String, String>>) -> Seq<Result<Seq<char>, Seq<char>>> {
    Seq::new(reads.len(), |i: int| read_view(reads[i]))
}

/// Whether a read gave the record of a note.
pub open spec fn holds_note(read: Result<Seq<char>, Seq<char>>) -> bool {
    match read {
        Ok(text) => decoded(text) is Some,
        Err(_) => false,
    }
}

/// The place of the first read that gave no note, or the number of reads
/// if each gave one.
pub open spec fn first_bad(reads: Seq<Result<Seq<char>, Seq<char>>>) -> int
    decreases reads.len(),
{
    if reads.len() == 0 || !holds_note(reads[0]) {
        0
    } else {
        1 + first_bad(reads.skip(1))
    }
}

/// The first read that gave no note lies within the reads, and each read
/// before it gave a note.
pub proof fn lemma_first_bad(reads: Seq<Result<Seq<char>, Seq<char>>>)
    ensures
        0 <= first_bad(reads) <= reads.len(),
        first_bad(reads) < reads.len() ==> !holds_note(reads[first_bad(reads)]),
        forall|i: int| 0 <= i < first_bad(reads) ==> holds_note(#[trigger] reads[i]),
    decreases reads.len(),
{
    if reads.len() == 0 || !holds_note(reads[0]) {
    } else {
        lemma_first_bad(reads.skip(1));
        assert forall|i: int| 0 <= i < first_bad(reads) implies holds_note(#[trigger] reads[i]) by {
            if i > 0 {
                assert(reads.skip(1)[i - 1] == reads[i]);
            }
        }
    }
}

/// Plans the reading of the live notes below the storage root `dir`.
/// `listing` says how the listing of the notes directory went: it gives
/// the entries, or nothing where that directory is not there, or the
/// message of its failure. A listing that failed is a `ReadFailure`.
/// Without the directory the plan is to make it, which is no error. With
/// it, the plan is to read every entry whose extension is `json`, in the
/// order of the listing.
pub fn get_all_notes_fn(dir: &str, listing: &Result<Option<Vec<DirEntry>>, String>) -> (plan: Result<
    ReadPlan,
    NoteError,
>)
    ensures
        match *listing {
            Err(message) => plan matches Err(error) && error.is_failure(
                FailureKind::Read,
                message@,
            ),
            Ok(None) => plan matches Ok(ReadPlan::Bootstrap(step)) && step@ == bootstrap_step(
                dir@,
            ),
            Ok(Some(entries)) => plan matches Ok(ReadPlan::Read(files)) && files.deep_view()
                == note_files(dir@, entries.deep_view()),
        },
{
    let folder = notes_dir(dir);
    let entries = match listing {
        Err(message) => {
            return Err(NoteError::ReadFailure(message.clone()));
        },
        Ok(None) => {
            return Ok(
                ReadPlan::Bootstrap(
                    Step {
                        action: Action::EnsureDir(folder),
                        policy: Policy::Abort(FailureKind::Write),
                    },
                ),
            );
        },
        Ok(Some(entries)) => entries,
    };
    let wanted = "json".to_owned();
    let mut files: Vec<StorePath> = Vec::new();
    let mut i: usize = 0;
    assert(files.deep_view() =~= Seq::<Location>::empty());
    assert(entries.deep_view().take(0) =~= Seq::<Entry>::empty());
    while i < entries.len()
        invariant
            i <= entries.len(),
            wanted@ == "json"@,
            folder@ == notes_folder(dir@),
            files.deep_view() == note_files(dir@, entries.deep_view().take(i as int)),
        decreases entries.len() - i,
    {
        let entry = &entries[i];
        let ghost before = files.deep_view();
        proof {
            let upto = entries.deep_view().take(i + 1);
            assert(upto.drop_last() =~= entries.deep_view().take(i as int));
            assert(upto.last() == entry@);
        }
        let is_json = match extension(entry.name.as_str()) {
            Some(ext) => ext == wanted,
            None => false,
        };
        if is_json {
            files.push(folder.join(entry.name.as_str()));
            assert(files.deep_view() =~= before.push(notes_folder(dir@).join(entry.name@)));
        }
        i = i + 1;
    }
    assert(entries.deep_view().take(i as int) =~= entries.deep_view());
    Ok(ReadPlan::Read(files))
}

/// Turns what was read from the files of the notes into the notes, in the
/// order of the reads. The first read that failed, or that holds no record
/// of a note, ends the call: a failed read is a `ReadFailure` with the
/// read's message, a text that is no record a `MalformedRecord`. No note is
/// returned then.
pub fn collect_notes(reads: &Vec<Result<String, String>>) -> (notes: Result<Vec<Note>, NoteError>)
    ensures
        match notes {
            Ok(list) => first_bad(read_views(reads@)) == reads.len() && list.len() == reads.len()
                && forall|i: int|
                0 <= i < reads.len() ==> (#[trigger] read_views(reads@)[i]) is Ok && decoded(
                    read_views(reads@)[i]->Ok_0,
                ) == Some(list@[i]@),
            Err(error) => first_bad(read_views(reads@)) < reads.len() && match read_views(
                reads@,
            )[first_bad(read_views(reads@))] {
                Ok(_) => error is MalformedRecord,
                Err(message) => error.is_failure(FailureKind::Read, message),
            },
        },
        forall|i: int|
            0 <= i < first_bad(read_views(reads@)) ==> holds_note(#[trigger] read_views(reads@)[i]),
        first_bad(read_views(reads@)) < reads.len() ==> !holds_note(
            read_views(reads@)[first_bad(read_views(reads@))],
        ),
{
    proof {
        lemma_first_bad(read_views(reads@));
    }
    let ghost views = read_views(reads@);
    let mut list: Vec<Note> = Vec::new();
    let mut i: usize = 0;
    assert(views.skip(0) =~= views);
    while i < reads.len()
        invariant
            i <= reads.len(),
            views == read_views(reads@),
            list.len() == i,
            first_bad(views) == i + first_bad(views.skip(i as int)),
            forall|k: int|
                0 <= k < i ==> (#[trigger] views[k]) is Ok && decoded(views[k]->Ok_0) == Some(
                    list@[k]@,
                ),
        decreases reads.len() - i,
    {
        assert(views.skip(i as int)[0] == views[i as int]);
        assert(views.skip(i as int).skip(1) =~= views.skip(i + 1));
        match &reads[i] {
            Ok(text) => match Note::deserialize(text.as_str()) {
                Ok(note) => {
                    list.push(note);
                },
                Err(error) => {
                    return Err(error);
                },
            },
            Err(message) => {
                return Err(NoteError::ReadFailure(message.clone()));
            },
        }
        i = i + 1;
    }
    Ok(list)
}

} // verus!
