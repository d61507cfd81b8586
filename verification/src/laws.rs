//! What the operations do to a volume when every step succeeds.

use vstd::prelude::*;

use crate::commands::backup_notes::{
    backup_folder, backup_steps, prepare_step, prune_steps, snapshot_folder,
};
use crate::commands::delete_note::delete_note_step;
use crate::commands::new_note::{new_note_steps, notes_folder, write_all_steps, write_note_steps};
use crate::commands::sync_local_notes::{clear_step, sync_steps};
use crate::error::FailureKind;
use crate::note::{note_file_name, note_location, NoteView};
use crate::record::encoded;
use crate::retention::Stamped;
use crate::storage::{carry_out, Location, StepView, Volume};

verus! {

/// Carrying out two runs of steps one behind the other is carrying out the
/// first and then, from where it ended, the second.
pub proof fn lemma_carry_out_both(first: Seq<StepView>, second: Seq<StepView>, volume: Volume)
    ensures
        carry_out(first + second, volume) == carry_out(second, carry_out(first, volume)),
    decreases second.len(),
{
    if second.len() == 0 {
        assert(first + second =~= first);
    } else {
        lemma_carry_out_both(first, second.drop_last(), volume);
        assert((first + second).drop_last() =~= first + second.drop_last());
    }
}

/// The file of the note `uuid` in the directory `folder`.
pub open spec fn file_in(folder: Location, uuid: Seq<char>) -> Location {
    folder.join(note_file_name(uuid))
}

/// Notes of different identifiers are kept in different files of a
/// directory, and each of these files lies in the directory.
pub proof fn lemma_files_differ(folder: Location, a: Seq<char>, b: Seq<char>)
    ensures
        file_in(folder, a) == file_in(folder, b) <==> a == b,
        file_in(folder, a).within(folder),
{
    if file_in(folder, a) == file_in(folder, b) {
        let x = note_file_name(a);
        let y = note_file_name(b);
        assert(file_in(folder, a).parts.last() == x);
        assert(file_in(folder, b).parts.last() == y);
        assert(a =~= x.take(a.len() as int));
        assert(b =~= y.take(b.len() as int));
        assert(x.len() == a.len() + ".json"@.len());
        assert(y.len() == b.len() + ".json"@.len());
    }
}

/// The file of a live note is the file of its identifier in the notes directory.
pub proof fn lemma_note_location(dir: Seq<char>, uuid: Seq<char>)
    ensures
        note_location(dir, uuid) == file_in(notes_folder(dir), uuid),
{
    assert(note_location(dir, uuid).parts =~= file_in(notes_folder(dir), uuid).parts);
}

/// Writing a note into a directory leaves every other file as it was, and
/// the note's own file with the note's record.
pub proof fn lemma_write_note(folder: Location, note: NoteView, kind: FailureKind, volume: Volume)
    ensures
        carry_out(write_note_steps(folder, note, kind), volume).files == volume.files.insert(
            file_in(folder, note.uuid),
            encoded(note),
        ),
{
    reveal_with_fuel(carry_out, 3);
    let steps = write_note_steps(folder, note, kind);
    assert(steps.drop_last().drop_last() =~= Seq::<StepView>::empty());
    assert(steps.drop_last().last() == steps[0]);
}

/// Creating a note leaves every other file as it was, and the note's own
/// file with the note's record.
pub proof fn lemma_create(dir: Seq<char>, note: NoteView, volume: Volume)
    ensures
        carry_out(new_note_steps(dir, note), volume).files == volume.files.insert(
            note_location(dir, note.uuid),
            encoded(note),
        ),
{
    lemma_write_note(notes_folder(dir), note, FailureKind::Write, volume);
    lemma_note_location(dir, note.uuid);
}

/// Creating two notes of one identifier, one after the other, leaves one
/// file for that identifier, with the record of the second note, and every
/// other file as it was.
pub proof fn lemma_create_twice(dir: Seq<char>, first: NoteView, second: NoteView, volume: Volume)
    requires
        first.uuid == second.uuid,
    ensures
        carry_out(
            new_note_steps(dir, second),
            carry_out(new_note_steps(dir, first), volume),
        ).files == volume.files.insert(note_location(dir, second.uuid), encoded(second)),
{
    let between = carry_out(new_note_steps(dir, first), volume);
    lemma_create(dir, first, volume);
    lemma_create(dir, second, between);
    assert(between.files.insert(note_location(dir, second.uuid), encoded(second))
        =~= volume.files.insert(note_location(dir, second.uuid), encoded(second)));
}

/// Whether `notes` holds a note of the identifier `uuid`.
pub open spec fn has_uuid(notes: Seq<NoteView>, uuid: Seq<char>) -> bool {
    exists|i: int| 0 <= i < notes.len() && (#[trigger] notes[i]).uuid == uuid
}

/// The last note of `notes` that bears the identifier `uuid`.
pub open spec fn last_with_uuid(notes: Seq<NoteView>, uuid: Seq<char>) -> NoteView
    decreases notes.len(),
{
    if notes.len() == 0 {
        arbitrary()
    } else if notes.last().uuid == uuid {
        notes.last()
    } else {
        last_with_uuid(notes.drop_last(), uuid)
    }
}

/// Whether `file` is the file of none of `notes` in the directory `folder`.
pub open spec fn is_other_file(folder: Location, notes: Seq<NoteView>, file: Location) -> bool {
    forall|i: int| 0 <= i < notes.len() ==> file != file_in(folder, (#[trigger] notes[i]).uuid)
}

/// Writing each of `notes` in turn into a directory leaves there the file
/// of each identifier, with the record of the last note that bears it, and
/// leaves every other file as it was.
pub proof fn lemma_write_all(folder: Location, notes: Seq<NoteView>, kind: FailureKind, volume: Volume)
    ensures
        forall|uuid: Seq<char>|
            has_uuid(notes, uuid) ==> #[trigger] carry_out(
                write_all_steps(folder, notes, kind),
                volume,
            ).holds(file_in(folder, uuid), encoded(last_with_uuid(notes, uuid))),
        forall|file: Location|
            is_other_file(folder, notes, file) ==> #[trigger] carry_out(
                write_all_steps(folder, notes, kind),
                volume,
            ).agrees(volume, file),
    decreases notes.len(),
{
    let after = carry_out(write_all_steps(folder, notes, kind), volume);
    if notes.len() == 0 {
    } else {
        let front = notes.drop_last();
        let before = carry_out(write_all_steps(folder, front, kind), volume);
        lemma_write_all(folder, front, kind, volume);
        lemma_carry_out_both(
            write_all_steps(folder, front, kind),
            write_note_steps(folder, notes.last(), kind),
            volume,
        );
        lemma_write_note(folder, notes.last(), kind, before);
        assert forall|uuid: Seq<char>| has_uuid(notes, uuid) implies #[trigger] after.holds(
            file_in(folder, uuid),
            encoded(last_with_uuid(notes, uuid)),
        ) by {
            lemma_files_differ(folder, uuid, notes.last().uuid);
            if notes.last().uuid != uuid {
                let i = choose|i: int| 0 <= i < notes.len() && (#[trigger] notes[i]).uuid == uuid;
                assert(front[i].uuid == uuid);
                assert(has_uuid(front, uuid));
                assert(before.holds(
                    file_in(folder, uuid),
                    encoded(last_with_uuid(front, uuid)),
                ));
            }
        }
        assert forall|file: Location| is_other_file(folder, notes, file) implies #[trigger] after.agrees(
            volume,
            file,
        ) by {
            assert(file != file_in(folder, notes[notes.len() - 1].uuid));
            assert forall|i: int| 0 <= i < front.len() implies file != file_in(
                folder,
                (#[trigger] front[i]).uuid,
            ) by {
                assert(front[i] == notes[i]);
            }
            assert(is_other_file(folder, front, file));
            assert(before.agrees(volume, file));
        }
    }
}

/// A sync replaces the live notes: afterwards the notes directory holds
/// the file of each note of the list, with the record of the last note of
/// its identifier, and no other file; files outside the notes directory
/// are as they were.
pub proof fn lemma_sync_replaces(dir: Seq<char>, notes: Seq<NoteView>, volume: Volume)
    ensures
        forall|uuid: Seq<char>|
            has_uuid(notes, uuid) ==> #[trigger] carry_out(sync_steps(dir, notes), volume).holds(
                note_location(dir, uuid),
                encoded(last_with_uuid(notes, uuid)),
            ),
        forall|file: Location|
            file.within(notes_folder(dir)) && (#[trigger] carry_out(
                sync_steps(dir, notes),
                volume,
            ).files.contains_key(file)) ==> exists|i: int|
                0 <= i < notes.len() && file == note_location(dir, (#[trigger] notes[i]).uuid),
        forall|file: Location|
            !file.within(notes_folder(dir)) ==> #[trigger] carry_out(
                sync_steps(dir, notes),
                volume,
            ).agrees(volume, file),
{
    reveal_with_fuel(carry_out, 3);
    let folder = notes_folder(dir);
    let rebuild = write_all_steps(folder, notes, FailureKind::Write);
    let cleared = carry_out(seq![clear_step(dir)], volume);
    let after = carry_out(sync_steps(dir, notes), volume);
    lemma_carry_out_both(seq![clear_step(dir)], rebuild, volume);
    assert(seq![clear_step(dir)].drop_last() =~= Seq::<StepView>::empty());
    assert(cleared == clear_step(dir).effect.apply(volume));
    lemma_write_all(folder, notes, FailureKind::Write, cleared);
    assert forall|uuid: Seq<char>| has_uuid(notes, uuid) implies #[trigger] after.holds(
        note_location(dir, uuid),
        encoded(last_with_uuid(notes, uuid)),
    ) by {
        lemma_note_location(dir, uuid);
        assert(after.holds(file_in(folder, uuid), encoded(last_with_uuid(notes, uuid))));
    }
    assert forall|file: Location|
        file.within(folder) && (#[trigger] after.files.contains_key(file)) implies exists|i: int|
        0 <= i < notes.len() && file == note_location(dir, (#[trigger] notes[i]).uuid) by {
        assert(!cleared.files.contains_key(file));
        if is_other_file(folder, notes, file) {
            assert(after.agrees(cleared, file));
        } else {
            let i = choose|i: int|
                0 <= i < notes.len() && file == file_in(folder, (#[trigger] notes[i]).uuid);
            lemma_note_location(dir, notes[i].uuid);
        }
    }
    assert forall|file: Location| !file.within(folder) implies #[trigger] after.agrees(
        volume,
        file,
    ) by {
        assert forall|i: int| 0 <= i < notes.len() implies file != file_in(
            folder,
            (#[trigger] notes[i]).uuid,
        ) by {
            lemma_files_differ(folder, notes[i].uuid, notes[i].uuid);
        }
        assert(is_other_file(folder, notes, file));
        assert(after.agrees(cleared, file));
    }
}

/// A sync with no notes leaves no file in the notes directory.
pub proof fn lemma_sync_with_nothing(dir: Seq<char>, volume: Volume)
    ensures
        forall|file: Location|
            file.within(notes_folder(dir)) ==> !(#[trigger] carry_out(
                sync_steps(dir, Seq::empty()),
                volume,
            ).files.contains_key(file)),
{
    lemma_sync_replaces(dir, Seq::empty(), volume);
}

/// Removing a note takes its file away and leaves every other file as it was.
pub proof fn lemma_delete(dir: Seq<char>, uuid: Seq<char>, volume: Volume)
    ensures
        carry_out(seq![delete_note_step(dir, uuid)], volume).files == volume.files.remove(
            note_location(dir, uuid),
        ),
{
    reveal_with_fuel(carry_out, 3);
    assert(seq![delete_note_step(dir, uuid)].drop_last() =~= Seq::<StepView>::empty());
}

/// The notes directory and the directory of the snapshots are apart: no
/// location lies in both.
pub proof fn lemma_folders_apart(dir: Seq<char>, file: Location)
    ensures
        !(file.within(notes_folder(dir)) && file.within(backup_folder(dir))),
{
    reveal_strlit(".notes");
    reveal_strlit(".backup");
    assert(crate::NOTES_DIR@.len() != crate::BACKUP_DIR@.len());
    if file.within(notes_folder(dir)) && file.within(backup_folder(dir)) {
        assert(file.parts[0] == notes_folder(dir).parts[0]);
        assert(file.parts[0] == backup_folder(dir).parts[0]);
    }
}

/// Creating or changing a live note leaves the snapshots as they are: no
/// file below the directory of the snapshots is added, removed or changed.
pub proof fn lemma_create_keeps_backups(dir: Seq<char>, note: NoteView, volume: Volume, file: Location)
    requires
        file.within(backup_folder(dir)),
    ensures
        carry_out(new_note_steps(dir, note), volume).agrees(volume, file),
{
    lemma_create(dir, note, volume);
    lemma_note_location(dir, note.uuid);
    lemma_files_differ(notes_folder(dir), note.uuid, note.uuid);
    lemma_folders_apart(dir, file);
}

/// A backup leaves in its snapshot the file of each note of the list,
/// with the record of the last note of its identifier, and leaves every
/// file outside the snapshot as it was: the live notes and the earlier
/// snapshots among them.
pub proof fn lemma_backup(dir: Seq<char>, notes: Seq<NoteView>, secs: u64, volume: Volume)
    ensures
        forall|uuid: Seq<char>|
            has_uuid(notes, uuid) ==> #[trigger] carry_out(
                backup_steps(dir, notes, secs),
                volume,
            ).holds(
                file_in(snapshot_folder(dir, secs), uuid),
                encoded(last_with_uuid(notes, uuid)),
            ),
        forall|file: Location|
            !file.within(snapshot_folder(dir, secs)) ==> #[trigger] carry_out(
                backup_steps(dir, notes, secs),
                volume,
            ).agrees(volume, file),
{
    reveal_with_fuel(carry_out, 3);
    let folder = snapshot_folder(dir, secs);
    let writes = write_all_steps(folder, notes, FailureKind::Backup);
    let prepared = carry_out(seq![prepare_step(dir)], volume);
    let after = carry_out(backup_steps(dir, notes, secs), volume);
    lemma_carry_out_both(seq![prepare_step(dir)], writes, volume);
    assert(seq![prepare_step(dir)].drop_last() =~= Seq::<StepView>::empty());
    assert(prepared.files == volume.files);
    lemma_write_all(folder, notes, FailureKind::Backup, prepared);
    assert forall|file: Location| !file.within(folder) implies #[trigger] after.agrees(
        volume,
        file,
    ) by {
        assert forall|i: int| 0 <= i < notes.len() implies file != file_in(
            folder,
            (#[trigger] notes[i]).uuid,
        ) by {
            lemma_files_differ(folder, notes[i].uuid, notes[i].uuid);
        }
        assert(is_other_file(folder, notes, file));
        assert(after.agrees(prepared, file));
    }
}

/// Whether `file` lies in the directory of one of the snapshots `old`.
pub open spec fn in_old_snapshot(dir: Seq<char>, old: Seq<Stamped>, file: Location) -> bool {
    exists|i: int| 0 <= i < old.len() && file.within(backup_folder(dir).join((#[trigger] old[i]).name))
}

/// Pruning takes away every file in the directories of the snapshots that
/// it removes, and leaves every other file as it was.
pub proof fn lemma_prune(dir: Seq<char>, old: Seq<Stamped>, volume: Volume)
    ensures
        forall|file: Location|
            in_old_snapshot(dir, old, file) ==> !(#[trigger] carry_out(
                prune_steps(dir, old),
                volume,
            ).files.contains_key(file)),
        forall|file: Location|
            !in_old_snapshot(dir, old, file) ==> #[trigger] carry_out(
                prune_steps(dir, old),
                volume,
            ).agrees(volume, file),
    decreases old.len(),
{
    let after = carry_out(prune_steps(dir, old), volume);
    if old.len() == 0 {
    } else {
        let front = old.drop_last();
        let before = carry_out(prune_steps(dir, front), volume);
        let gone = backup_folder(dir).join(old.last().name);
        lemma_prune(dir, front, volume);
        assert(prune_steps(dir, old).drop_last() =~= prune_steps(dir, front));
        assert forall|file: Location| in_old_snapshot(dir, old, file) implies !(#[trigger] after.files.contains_key(
            file,
        )) by {
            if !file.within(gone) {
                let i = choose|i: int|
                    0 <= i < old.len() && file.within(
                        backup_folder(dir).join((#[trigger] old[i]).name),
                    );
                assert(front[i] == old[i]);
                assert(in_old_snapshot(dir, front, file));
                assert(!before.files.contains_key(file));
            }
        }
        assert forall|file: Location| !in_old_snapshot(dir, old, file) implies #[trigger] after.agrees(
            volume,
            file,
        ) by {
            assert(!file.within(backup_folder(dir).join(old[old.len() - 1].name)));
            if in_old_snapshot(dir, front, file) {
                let i = choose|i: int|
                    0 <= i < front.len() && file.within(
                        backup_folder(dir).join((#[trigger] front[i]).name),
                    );
                assert(old[i] == front[i]);
            }
            assert(before.agrees(volume, file));
        }
    }
}

} // verus!
