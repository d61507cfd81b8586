//! Removing a note.

use vstd::prelude::*;

use crate::error::FailureKind;
use crate::note::{note_location, Note};
use crate::storage::{Action, Effect, Policy, Step, StepView};

verus! {

/// The step that removes the note `uuid` below the storage root `dir`.
pub open spec fn delete_note_step(dir: Seq<char>, uuid: Seq<char>) -> StepView {
    StepView {
        effect: Effect::RemoveFile(note_location(dir, uuid)),
        policy: Policy::Abort(FailureKind::Delete),
    }
}

/// Removes the file of the note `uuid` below the storage root `dir`. Where
/// the file is not there or cannot be removed, that is a `DeleteFailure`.
pub fn delete_note_fn(dir: &str, uuid: &String) -> (step: Step)
    ensures
        step@ == delete_note_step(dir@, uuid@),
{
    Step {
        action: Action::RemoveFile(Note::get_path(dir, uuid)),
        policy: Policy::Abort(FailureKind::Delete),
    }
}

} // verus!
