//! Taking notes in from files of other origin.

use vstd::prelude::*;

use crate::clock::unix_millis;
use crate::commands::get_all_notes::{is_note_file, read_view};
use crate::commands::new_note::{new_note_fn, new_note_steps};
use crate::error::{FailureKind, ImportFailure, NoteError};
use crate::ident::{adopt_or_fresh, is_fresh_form, is_uuid_text};
use crate::note::{text_note, Note, NoteView};
use crate::record::decoded;
use crate::storage::Step;
use crate::text::{extension, file_stem, stem_of};

verus! {

/// A file to import: how the caller named it, the name of the file itself,
/// and what reading it gave: its text, or the message of the failure.
#[derive(Debug, PartialEq, Eq)]
pub struct ImportSource {
    pub path: String,
    pub name: String,
    pub contents: Result<String, String>,
}

/// One file of an import after it was read: the note it gives, or why it gives none.
#[derive(Debug, PartialEq, Eq)]
pub struct ImportItem {
    pub path: String,
    pub outcome: Result<Note, NoteError>,
}

/// What an import has achieved so far.
#[derive(Debug, PartialEq, Eq)]
pub struct ImportReport {
    /// The notes that were taken in and written, in the order of their files.
    pub imported: Vec<Note>,
    /// One entry for each file that failed, in the order of the files.
    pub errors: Vec<ImportFailure>,
}

/// The note that the text of a file named `name` gives under the
/// identifier `uuid` at the time `now`. A text that is the record of a
/// note gives that note's content. Any other text is taken as free text,
/// unless the file's extension is `json`: then the file gives no note.
pub open spec fn imported_note(name: Seq<char>, text: Seq<char>, uuid: Seq<char>, now: i64) -> Option<
    NoteView,
> {
    match decoded(text) {
        Some(note) => Some(NoteView { uuid, timestamp: now, content: note.content }),
        None => if is_note_file(name) {
            None
        } else {
            Some(text_note(text, uuid, now))
        },
    }
}

/// Whether `uuid` is an identifier for the note of a file named `name`: the
/// stem of the name where that is written as a UUID, else an identifier of
/// the form of a fresh one.
pub open spec fn is_import_uuid(name: Seq<char>, uuid: Seq<char>) -> bool {
    if is_uuid_text(stem_of(name)) {
        uuid == stem_of(name)
    } else {
        is_fresh_form(uuid)
    }
}

/// Whether `item` is what the file `source` gives at the time `now`.
pub open spec fn is_item_of(item: ImportItem, source: ImportSource, now: i64) -> bool {
    &&& item.path@ == source.path@
    &&& match read_view(source.contents) {
        Err(message) => item.outcome matches Err(error) && error.is_failure(
            FailureKind::Read,
            message,
        ),
        Ok(text) => match item.outcome {
            Ok(note) => is_import_uuid(source.name@, note@.uuid) && imported_note(
                source.name@,
                text,
                note@.uuid,
                now,
            ) == Some(note@),
            Err(error) => error is MalformedRecord && decoded(text) is None && is_note_file(
                source.name@,
            ),
        },
    }
}

/// Whether `items` are what the files `sources` give at the time `now`,
/// one for one and in their order.
pub open spec fn are_items_of(items: Seq<ImportItem>, sources: Seq<ImportSource>, now: i64) -> bool {
    items.len() == sources.len() && forall|i: int|
        0 <= i < sources.len() ==> is_item_of(#[trigger] items[i], sources[i], now)
}

/// The note that the text `text` of a file named `name` gives under the
/// identifier `uuid` at the time `now`, or `MalformedRecord` where it gives none.
pub fn import_text(name: &str, text: &str, uuid: String, now: i64) -> (note: Result<Note, NoteError>)
    ensures
        match note {
            Ok(n) => imported_note(name@, text@, uuid@, now) == Some(n@),
            Err(error) => imported_note(name@, text@, uuid@, now) is None && error
                is MalformedRecord,
        },
{
    match Note::deserialize(text) {
        Ok(read) => Ok(Note { uuid, timestamp: now, content: read.content }),
        Err(error) => {
            let is_json = match extension(name) {
                Some(ext) => ext == "json".to_owned(),
                None => false,
            };
            if is_json {
                Err(error)
            } else {
                Ok(Note::from_text(text.to_owned(), uuid, now))
            }
        },
    }
}

/// Turns one file of an import into its note. A file that could not be
/// read is a `ReadFailure` with the read's message. The note's identifier
/// is the stem of the file's name where that is written as a UUID, else a
/// fresh one; its time is `now`.
pub fn import_note(source: &ImportSource, now: i64) -> (item: ImportItem)
    ensures
        is_item_of(item, *source, now),
{
    let outcome = match &source.contents {
        Err(message) => Err(NoteError::ReadFailure(message.clone())),
        Ok(text) => {
            let stem = file_stem(source.name.as_str());
            let uuid = adopt_or_fresh(stem.as_str());
            import_text(source.name.as_str(), text.as_str(), uuid, now)
        },
    };
    ImportItem { path: source.path.clone(), outcome }
}

/// Turns the files of an import into their notes at the time `now`, each
/// file by itself and in the order given: a file that fails does not stop
/// the others.
pub fn import_notes_at(sources: &Vec<ImportSource>, now: i64) -> (items: Vec<ImportItem>)
    ensures
        are_items_of(items@, sources@, now),
{
    let mut items: Vec<ImportItem> = Vec::new();
    let mut i: usize = 0;
    while i < sources.len()
        invariant
            i <= sources.len(),
            items.len() == i,
            forall|k: int| 0 <= k < i ==> is_item_of(#[trigger] items@[k], sources@[k], now),
        decreases sources.len() - i,
    {
        items.push(import_note(&sources[i], now));
        i = i + 1;
    }
    items
}

/// Turns the files of an import into their notes, as `import_notes_at`
/// does at the milliseconds that the clock shows: every note bears one time.
pub fn import_notes_fn(sources: &Vec<ImportSource>) -> (items: Vec<ImportItem>)
    ensures
        exists|now: i64| are_items_of(items@, sources@, now),
{
    let now = unix_millis();
    import_notes_at(sources, now)
}

impl ImportItem {
    /// The steps that write this item's note below the storage root `dir`,
    /// as creating a note does; nothing where the item gives no note.
    pub fn steps(&self, dir: &str) -> (steps: Option<Vec<Step>>)
        ensures
            match self.outcome {
                Ok(note) => steps matches Some(list) && list.deep_view() == new_note_steps(
                    dir@,
                    note@,
                ),
                Err(_) => steps is None,
            },
    {
        match &self.outcome {
            Ok(note) => Some(new_note_fn(dir, note)),
            Err(_) => None,
        }
    }
}

impl ImportReport {
    /// The report of an import that has seen no file yet.
    pub fn new() -> (report: ImportReport)
        ensures
            report.imported@.len() == 0,
            report.errors@.len() == 0,
    {
        ImportReport { imported: Vec::new(), errors: Vec::new() }
    }

    /// Takes one file into the report. `written` says how the writing of the
    /// file's note went, and counts only where the file gave a note. A note
    /// that was written joins the imported notes. Otherwise the file joins
    /// the errors: with the error of its writing, or with the error for
    /// which it gave no note.
    pub fn record(&mut self, item: ImportItem, written: Result<(), NoteError>)
        ensures
            match (item.outcome, written) {
                (Ok(note), Ok(())) => {
                    &&& final(self).imported@ == old(self).imported@.push(note)
                    &&& final(self).errors@ == old(self).errors@
                },
                (Ok(_), Err(error)) => {
                    &&& final(self).imported@ == old(self).imported@
                    &&& final(self).errors@ == old(self).errors@.push(
                        ImportFailure { path: item.path, error },
                    )
                },
                (Err(error), _) => {
                    &&& final(self).imported@ == old(self).imported@
                    &&& final(self).errors@ == old(self).errors@.push(
                        ImportFailure { path: item.path, error },
                    )
                },
            },
    {
        match item.outcome {
            Ok(note) => match written {
                Ok(()) => {
                    self.imported.push(note);
                },
                Err(error) => {
                    self.errors.push(ImportFailure { path: item.path, error });
                },
            },
            Err(error) => {
                self.errors.push(ImportFailure { path: item.path, error });
            },
        }
    }

    /// How the import ended: with the imported notes where no file failed,
    /// else with an `ImportBatchFailure` that holds every error.
    pub fn finish(self) -> (result: Result<Vec<Note>, NoteError>)
        ensures
            match result {
                Ok(notes) => self.errors@.len() == 0 && notes == self.imported,
                Err(error) => self.errors@.len() > 0 && error == NoteError::ImportBatchFailure(
                    self.errors,
                ),
            },
    {
        if self.errors.len() == 0 {
            Ok(self.imported)
        } else {
            Err(NoteError::ImportBatchFailure(self.errors))
        }
    }
}

/// The error with which a file joins the errors of an import: the error
/// for which it gave no note, or else the error of the writing of its
/// note; none where the note was written.
pub open spec fn failure_of(item: ImportItem, written: Result<(), NoteError>) -> Option<ImportFailure> {
    match (item.outcome, written) {
        (Err(error), _) => Some(ImportFailure { path: item.path, error }),
        (Ok(_), Err(error)) => Some(ImportFailure { path: item.path, error }),
        (Ok(_), Ok(())) => None,
    }
}

/// The errors of an import, given each file's item and how the writing of
/// its note went: one for each file that failed, in the order of the files.
pub open spec fn batch_errors(files: Seq<(ImportItem, Result<(), NoteError>)>) -> Seq<ImportFailure>
    decreases files.len(),
{
    if files.len() == 0 {
        Seq::empty()
    } else {
        let before = batch_errors(files.drop_last());
        match failure_of(files.last().0, files.last().1) {
            Some(failure) => before.push(failure),
            None => before,
        }
    }
}

/// The notes that an import took in: those that were written, in the order
/// of their files.
pub open spec fn batch_notes(files: Seq<(ImportItem, Result<(), NoteError>)>) -> Seq<Note>
    decreases files.len(),
{
    if files.len() == 0 {
        Seq::empty()
    } else {
        let before = batch_notes(files.drop_last());
        match failure_of(files.last().0, files.last().1) {
            Some(_) => before,
            None => before.push(files.last().0.outcome->Ok_0),
        }
    }
}

/// Every file of an import either joins the imported notes or the errors,
/// and there is no error exactly where no file failed.
pub proof fn lemma_batch(files: Seq<(ImportItem, Result<(), NoteError>)>)
    ensures
        batch_notes(files).len() + batch_errors(files).len() == files.len(),
        batch_errors(files).len() == 0 <==> forall|i: int|
            0 <= i < files.len() ==> failure_of((#[trigger] files[i]).0, files[i].1) is None,
    decreases files.len(),
{
    if files.len() > 0 {
        lemma_batch(files.drop_last());
        let front = files.drop_last();
        if batch_errors(files).len() == 0 {
            assert forall|i: int| 0 <= i < files.len() implies failure_of(
                (#[trigger] files[i]).0,
                files[i].1,
            ) is None by {
                if i < front.len() {
                    assert(front[i] == files[i]);
                }
            }
        } else if failure_of(files.last().0, files.last().1) is None {
            let i = choose|i: int|
                0 <= i < front.len() && !(failure_of((#[trigger] front[i]).0, front[i].1) is None);
            assert(files[i] == front[i]);
        } else {
            assert(files[files.len() - 1] == files.last());
        }
    }
}

/// Concludes an import, given each file's item and how the writing of its
/// note went (which counts only where the file gave a note). The report
/// holds the notes that were written and one error for each file that
/// failed, both in the order of the files.
pub fn conclude_import(files: Vec<(ImportItem, Result<(), NoteError>)>) -> (report: ImportReport)
    ensures
        report.imported@ == batch_notes(files@),
        report.errors@ == batch_errors(files@),
{
    let mut report = ImportReport::new();
    assert(report.imported@ =~= batch_notes(files@.take(0)));
    assert(report.errors@ =~= batch_errors(files@.take(0)));
    for file in it: files
        invariant
            it.seq() == files@,
            report.imported@ == batch_notes(files@.take(it.index() as int)),
            report.errors@ == batch_errors(files@.take(it.index() as int)),
    {
        proof {
            let upto = files@.take(it.index() + 1);
            assert(upto.drop_last() =~= files@.take(it.index() as int));
            assert(upto.last() == file);
        }
        report.record(file.0, file.1);
    }
    assert(files@.take(files@.len() as int) =~= files@);
    report
}

} // verus!
