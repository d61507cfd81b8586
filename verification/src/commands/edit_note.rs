//! Changing a note.

use vstd::prelude::*;

use crate::commands::new_note::{new_note_fn, new_note_steps};
use crate::note::Note;
use crate::storage::Step;

verus! {

/// Writes a changed note below the storage root `dir`, as creating it
/// does: whether a note of that identifier is there already is not asked.
pub fn edit_note_fn(dir: &str, note: &Note) -> (steps: Vec<Step>)
    ensures
        steps.deep_view() == new_note_steps(dir@, note@),
{
    new_note_fn(dir, note)
}

} // verus!
