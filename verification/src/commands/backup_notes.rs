//! Snapshots of a list of notes, and the pruning of old snapshots.

use vstd::prelude::*;

use crate::commands::new_note::{write_all_steps, write_notes};
use crate::clock::unix_seconds;
use crate::error::{FailureKind, NoteError};
use crate::note::{Note, NoteView};
use crate::retention::{doomed, old_snapshots, Stamped};
use crate::storage::{
    push_all, Action, DirEntry, Effect, Location, Policy, Step, StepView, StorePath,
};
use crate::text::{decimal, decimal_text, lemma_decimal_text_value, u64_of_text};

verus! {

/// Whether a note has neither a title nor a body.
pub open spec fn is_empty_note(note: NoteView) -> bool {
    note.content.title.len() == 0 && note.content.body.len() == 0
}

/// Whether every note of `notes` is empty; so it is where there are none.
pub open spec fn all_empty(notes: Seq<NoteView>) -> bool {
    forall|i: int| 0 <= i < notes.len() ==> is_empty_note(#[trigger] notes[i])
}

/// The directory of the snapshots below the storage root `dir`.
pub open spec fn backup_folder(dir: Seq<char>) -> Location {
    Location { root: dir, parts: seq![crate::BACKUP_DIR@] }
}

/// The directory of the snapshot taken at `secs` seconds since the epoch:
/// it is named by that number in decimal digits.
pub open spec fn snapshot_folder(dir: Seq<char>, secs: u64) -> Location {
    backup_folder(dir).join(decimal_text(secs as nat))
}

/// The step that makes sure that the directory of the snapshots is there.
/// Its failure does not end the backup.
pub open spec fn prepare_step(dir: Seq<char>) -> StepView {
    StepView { effect: Effect::EnsureDir(backup_folder(dir)), policy: Policy::Ignore }
}

/// The steps of a backup at `secs` seconds since the epoch.
pub open spec fn backup_steps(dir: Seq<char>, notes: Seq<NoteView>, secs: u64) -> Seq<StepView> {
    seq![prepare_step(dir)] + write_all_steps(
        snapshot_folder(dir, secs),
        notes,
        FailureKind::Backup,
    )
}

/// The step that removes the snapshot directory `name`. Its failure is passed over.
pub open spec fn prune_step(dir: Seq<char>, name: Seq<char>) -> StepView {
    StepView { effect: Effect::RemoveDirAll(backup_folder(dir).join(name)), policy: Policy::Ignore }
}

/// The steps that remove each of the snapshots `old` in turn.
pub open spec fn prune_steps(dir: Seq<char>, old: Seq<Stamped>) -> Seq<StepView> {
    Seq::new(old.len(), |i: int| prune_step(dir, old[i].name))
}

/// The name of the snapshot taken at `secs` is read back as the number `secs`.
pub proof fn lemma_snapshot_name(secs: u64)
    ensures
        u64_of_text(decimal_text(secs as nat)) == Some(secs),
{
    lemma_decimal_text_value(secs as nat);
}

/// The directory of the snapshots below the storage root `dir`.
pub fn backup_dir(dir: &str) -> (folder: StorePath)
    ensures
        folder@ == backup_folder(dir@),
{
    let folder = StorePath::new(dir).join(crate::BACKUP_DIR);
    assert(folder@.parts =~= seq![crate::BACKUP_DIR@]);
    folder
}

/// Whether every note of `notes` is empty.
pub fn only_empty_notes(notes: &Vec<Note>) -> (yes: bool)
    ensures
        yes == all_empty(notes.deep_view()),
{
    let mut i: usize = 0;
    while i < notes.len()
        invariant
            i <= notes.len(),
            forall|k: int| 0 <= k < i ==> is_empty_note(#[trigger] notes.deep_view()[k]),
        decreases notes.len() - i,
    {
        if !notes[i].is_empty() {
            assert(!is_empty_note(notes.deep_view()[i as int]));
            return false;
        }
        i = i + 1;
    }
    true
}

/// Takes a snapshot of `notes` at `now_secs` seconds since the epoch, below
/// the storage root `dir`. There is nothing to do, and no directory is
/// made, where `notes` holds no note or only empty ones. Otherwise every
/// note is written into the directory named by `now_secs`, after the
/// directory of the snapshots has been made if it can be. A note that cannot
/// be written is a `BackupFailure`; what was written before it stays.
pub fn backup_notes_at(dir: &str, notes: &Vec<Note>, now_secs: u64) -> (plan: Option<Vec<Step>>)
    ensures
        match plan {
            Some(steps) => !all_empty(notes.deep_view()) && steps.deep_view() == backup_steps(
                dir@,
                notes.deep_view(),
                now_secs,
            ),
            None => all_empty(notes.deep_view()),
        },
{
    if only_empty_notes(notes) {
        return None;
    }
    let root = backup_dir(dir);
    let stamp = decimal(now_secs);
    let folder = root.join(stamp.as_str());
    let mut steps: Vec<Step> = Vec::new();
    steps.push(Step { action: Action::EnsureDir(root), policy: Policy::Ignore });
    assert(steps.deep_view() =~= seq![prepare_step(dir@)]);
    push_all(&mut steps, write_notes(&folder, notes, FailureKind::Backup));
    Some(steps)
}

/// Takes a snapshot of `notes` now, below the storage root `dir`: as
/// `backup_notes_at` does at the whole seconds that the clock shows. The
/// clock is read only where there is something to back up; a clock that
/// stands before the epoch is a `BackupFailure`.
pub fn backup_notes_fn(dir: &str, notes: &Vec<Note>) -> (plan: Result<Option<Vec<Step>>, NoteError>)
    ensures
        match plan {
            Ok(Some(steps)) => !all_empty(notes.deep_view()) && exists|secs: u64|
                steps.deep_view() == backup_steps(dir@, notes.deep_view(), secs),
            Ok(None) => all_empty(notes.deep_view()),
            Err(error) => !all_empty(notes.deep_view()) && error is BackupFailure,
        },
{
    if only_empty_notes(notes) {
        return Ok(None);
    }
    match unix_seconds() {
        Some(secs) => Ok(backup_notes_at(dir, notes, secs)),
        None => Err(NoteError::BackupFailure("the clock stands before the epoch".to_owned())),
    }
}

/// Prunes the snapshots below the storage root `dir`, given the entries of
/// the directory of the snapshots. The snapshots are the directories whose
/// name is an unsigned number; other entries are left alone. Where there
/// are more than three, all but the three youngest are removed, the oldest
/// first. A removal that fails is passed over.
pub fn remove_old_backups(dir: &str, entries: &Vec<DirEntry>) -> (steps: Vec<Step>)
    ensures
        steps.deep_view() == prune_steps(dir@, doomed(entries.deep_view())),
{
    let old = old_snapshots(entries);
    let root = backup_dir(dir);
    let mut steps: Vec<Step> = Vec::new();
    let mut i: usize = 0;
    while i < old.len()
        invariant
            i <= old.len(),
            steps.len() == i,
            root@ == backup_folder(dir@),
            forall|k: int| 0 <= k < i ==> steps@[k]@ == prune_step(dir@, old@[k].name@),
        decreases old.len() - i,
    {
        steps.push(
            Step {
                action: Action::RemoveDirAll(root.join(old[i].name.as_str())),
                policy: Policy::Ignore,
            },
        );
        i = i + 1;
    }
    assert(steps.deep_view() =~= prune_steps(dir@, old.deep_view()));
    steps
}

/// The steps of the pruning that follows a backup. `written` says how the
/// steps of the backup went, `listing` how the listing of the directory of
/// the snapshots went: it gives the entries, or nothing where that
/// directory is not there, or the message of its failure. The snapshots
/// are pruned only after a backup that succeeded and a listing that gave
/// the entries; a listing that failed is passed over.
pub fn prune_after_backup(
    dir: &str,
    written: &Result<(), NoteError>,
    listing: &Result<Option<Vec<DirEntry>>, String>,
) -> (steps: Vec<Step>)
    ensures
        steps.deep_view() == (match (*written, *listing) {
            (Ok(()), Ok(Some(entries))) => prune_steps(dir@, doomed(entries.deep_view())),
            _ => Seq::empty(),
        }),
{
    match written {
        Ok(()) => match listing {
            Ok(Some(entries)) => {
                return remove_old_backups(dir, entries);
            },
            _ => {},
        },
        Err(_) => {},
    }
    let steps: Vec<Step> = Vec::new();
    assert(steps.deep_view() =~= Seq::<StepView>::empty());
    steps
}

} // verus!
