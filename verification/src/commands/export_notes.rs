//! Writing notes out as plain text.

use vstd::prelude::*;

use crate::error::FailureKind;
use crate::note::{plain_text_of, Note, NoteView};
use crate::storage::{Action, Effect, Location, Policy, Step, StepView, StorePath};

verus! {

/// The name of the text file of the note `uuid`.
pub open spec fn export_file_name(uuid: Seq<char>) -> Seq<char> {
    uuid + ".txt"@
}

/// The step that writes the plain text of a note into the directory `save_dir`.
pub open spec fn export_step(save_dir: Seq<char>, note: NoteView) -> StepView {
    StepView {
        effect: Effect::WriteFile(
            Location { root: save_dir, parts: seq![export_file_name(note.uuid)] },
            plain_text_of(note),
        ),
        policy: Policy::Abort(FailureKind::Write),
    }
}

/// The steps that write the plain text of each of `notes` in turn.
pub open spec fn export_steps(save_dir: Seq<char>, notes: Seq<NoteView>) -> Seq<StepView> {
    Seq::new(notes.len(), |i: int| export_step(save_dir, notes[i]))
}

/// Writes each of `notes` as a text file into the directory `save_dir`: the
/// file is named by the note's identifier and `.txt`, and holds what the
/// note's operations put in. A step that fails is a `WriteFailure`.
pub fn export_notes_fn(save_dir: &str, notes: &Vec<Note>) -> (steps: Vec<Step>)
    ensures
        steps.deep_view() == export_steps(save_dir@, notes.deep_view()),
{
    let mut steps: Vec<Step> = Vec::new();
    let mut i: usize = 0;
    while i < notes.len()
        invariant
            i <= notes.len(),
            steps.len() == i,
            forall|k: int| 0 <= k < i ==> steps@[k]@ == export_step(save_dir@, notes@[k]@),
        decreases notes.len() - i,
    {
        let note = &notes[i];
        let mut filename = note.uuid.clone();
        filename.append(".txt");
        let file = StorePath::new(save_dir).join(filename.as_str());
        assert(file@.parts =~= seq![export_file_name(note@.uuid)]);
        steps.push(
            Step {
                action: Action::WriteFile(file, note.plain_text()),
                policy: Policy::Abort(FailureKind::Write),
            },
        );
        i = i + 1;
    }
    assert(steps.deep_view() =~= export_steps(save_dir@, notes.deep_view()));
    steps
}

} // verus!
