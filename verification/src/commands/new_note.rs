//! Creating a note.

use vstd::prelude::*;

use crate::error::FailureKind;
use crate::note::{note_file_name, Note, NoteView};
use crate::record::encoded;
use crate::storage::{push_all, Action, Effect, Location, Policy, Step, StepView, StorePath};

verus! {

/// The steps that write a note into the directory `folder`: make sure that
/// the directory is there, then write the note's record into the file named
/// by its identifier. A failure of either step is one of kind `kind`.
pub open spec fn write_note_steps(folder: Location, note: NoteView, kind: FailureKind) -> Seq<StepView> {
    seq![
        StepView { effect: Effect::EnsureDir(folder), policy: Policy::Abort(kind) },
        StepView {
            effect: Effect::WriteFile(folder.join(note_file_name(note.uuid)), encoded(note)),
            policy: Policy::Abort(kind),
        },
    ]
}

/// The steps that write each of `notes` in turn into the directory `folder`.
pub open spec fn write_all_steps(folder: Location, notes: Seq<NoteView>, kind: FailureKind) -> Seq<
    StepView,
>
    decreases notes.len(),
{
    if notes.len() == 0 {
        Seq::empty()
    } else {
        write_all_steps(folder, notes.drop_last(), kind) + write_note_steps(
            folder,
            notes.last(),
            kind,
        )
    }
}

/// The directory of the live notes below the storage root `dir`.
pub open spec fn notes_folder(dir: Seq<char>) -> Location {
    Location { root: dir, parts: seq![crate::NOTES_DIR@] }
}

/// The steps that create a note below the storage root `dir`.
pub open spec fn new_note_steps(dir: Seq<char>, note: NoteView) -> Seq<StepView> {
    write_note_steps(notes_folder(dir), note, FailureKind::Write)
}

/// The steps that write `note` into the directory `folder`.
pub fn write_note(folder: &StorePath, note: &Note, kind: FailureKind) -> (steps: Vec<Step>)
    ensures
        steps.deep_view() == write_note_steps(folder@, note@, kind),
{
    let mut filename = note.uuid.clone();
    filename.append(".json");
    let file = folder.join(filename.as_str());
    let mut steps: Vec<Step> = Vec::new();
    steps.push(Step { action: Action::EnsureDir(folder.clone()), policy: Policy::Abort(kind) });
    steps.push(
        Step { action: Action::WriteFile(file, note.serialize()), policy: Policy::Abort(kind) },
    );
    assert(steps.deep_view() =~= write_note_steps(folder@, note@, kind));
    steps
}

/// The steps that write each of `notes` in turn into the directory `folder`.
pub fn write_notes(folder: &StorePath, notes: &Vec<Note>, kind: FailureKind) -> (steps: Vec<Step>)
    ensures
        steps.deep_view() == write_all_steps(folder@, notes.deep_view(), kind),
{
    let mut steps: Vec<Step> = Vec::new();
    let mut i: usize = 0;
    assert(steps.deep_view() =~= Seq::<StepView>::empty());
    assert(notes.deep_view().take(0) =~= Seq::<NoteView>::empty());
    while i < notes.len()
        invariant
            i <= notes.len(),
            steps.deep_view() == write_all_steps(folder@, notes.deep_view().take(i as int), kind),
        decreases notes.len() - i,
    {
        proof {
            let upto = notes.deep_view().take(i + 1);
            assert(upto.drop_last() =~= notes.deep_view().take(i as int));
            assert(upto.last() == notes@[i as int]@);
        }
        push_all(&mut steps, write_note(folder, &notes[i], kind));
        i = i + 1;
    }
    assert(notes.deep_view().take(i as int) =~= notes.deep_view());
    steps
}

/// The directory of the live notes below the storage root `dir`.
pub fn notes_dir(dir: &str) -> (folder: StorePath)
    ensures
        folder@ == notes_folder(dir@),
{
    let folder = StorePath::new(dir).join(crate::NOTES_DIR);
    assert(folder@.parts =~= seq![crate::NOTES_DIR@]);
    folder
}

/// Creates a note below the storage root `dir`: the notes directory is made
/// if it is not there, and the note's record is written to its file, in
/// place of what the file held. A step that fails is a `WriteFailure`.
pub fn new_note_fn(dir: &str, note: &Note) -> (steps: Vec<Step>)
    ensures
        steps.deep_view() == new_note_steps(dir@, note@),
{
    write_note(&notes_dir(dir), note, FailureKind::Write)
}

} // verus!
