//! Replacing the live notes by a given list.

use vstd::prelude::*;

use crate::commands::new_note::{notes_dir, notes_folder, write_all_steps, write_notes};
use crate::error::FailureKind;
use crate::note::{Note, NoteView};
use crate::storage::{push_all, Action, Effect, Policy, Step, StepView};

verus! {

/// The step that removes the directory of the live notes with all it holds.
pub open spec fn clear_step(dir: Seq<char>) -> StepView {
    StepView {
        effect: Effect::RemoveDirAll(notes_folder(dir)),
        policy: Policy::Abort(FailureKind::Sync),
    }
}

/// The steps of a sync: clear the live notes, then create each of `notes` in turn.
pub open spec fn sync_steps(dir: Seq<char>, notes: Seq<NoteView>) -> Seq<StepView> {
    seq![clear_step(dir)] + write_all_steps(notes_folder(dir), notes, FailureKind::Write)
}

/// Replaces the live notes below the storage root `dir` by `notes`: the
/// notes directory is removed with all it holds, then each note is created
/// in turn. Where the removal fails, that is a `SyncFailure` and nothing has
/// changed; where a later step fails, that is a `WriteFailure` and the notes
/// before it are written, the others not.
pub fn sync_local_notes_fn(dir: &str, notes: &Vec<Note>) -> (steps: Vec<Step>)
    ensures
        steps.deep_view() == sync_steps(dir@, notes.deep_view()),
{
    let folder = notes_dir(dir);
    let mut steps: Vec<Step> = Vec::new();
    steps.push(
        Step { action: Action::RemoveDirAll(folder.clone()), policy: Policy::Abort(FailureKind::Sync) },
    );
    assert(steps.deep_view() =~= seq![clear_step(dir@)]);
    push_all(&mut steps, write_notes(&folder, notes, FailureKind::Write));
    steps
}

} // verus!
