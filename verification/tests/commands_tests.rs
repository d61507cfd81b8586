use std::collections::{BTreeMap, BTreeSet};

use note_boi::commands::backup_notes::{
    backup_dir, backup_notes_at, backup_notes_fn, only_empty_notes, prune_after_backup,
    remove_old_backups,
};
use note_boi::commands::delete_note::delete_note_fn;
use note_boi::commands::edit_note::edit_note_fn;
use note_boi::commands::export_notes::export_notes_fn;
use note_boi::commands::get_all_notes::{collect_notes, get_all_notes_fn, ReadPlan};
use note_boi::commands::import_notes::{
    conclude_import, import_note, import_notes_at, import_notes_fn, import_text, ImportItem,
    ImportReport, ImportSource,
};
use note_boi::commands::new_note::{new_note_fn, notes_dir, write_note};
use note_boi::commands::sync_local_notes::sync_local_notes_fn;
use note_boi::error::{FailureKind, ImportFailure, NoteError};
use note_boi::ident::is_uuid;
use note_boi::json::Json;
use note_boi::note::{Delta, DeltaOp, Note, NoteContent};
use note_boi::storage::{push_all, Action, DirEntry, Policy, Step, StorePath};
use note_boi::AppState;

/// A volume in memory that performs the steps of the engine.
struct Disk {
    dirs: BTreeSet<Vec<String>>,
    files: BTreeMap<Vec<String>, String>,
    broken: BTreeSet<Vec<String>>,
    unlistable: BTreeSet<Vec<String>>,
}

fn key(path: &StorePath) -> Vec<String> {
    let mut all = vec![path.root.clone()];
    all.extend(path.parts.iter().cloned());
    all
}

impl Disk {
    fn new() -> Disk {
        Disk {
            dirs: BTreeSet::new(),
            files: BTreeMap::new(),
            broken: BTreeSet::new(),
            unlistable: BTreeSet::new(),
        }
    }

    fn perform(&mut self, action: &Action) -> Result<(), String> {
        match action {
            Action::EnsureDir(dir) => {
                let k = key(dir);
                if self.broken.contains(&k) {
                    return Err("permission denied".to_string());
                }
                for n in 1..=k.len() {
                    self.dirs.insert(k[..n].to_vec());
                }
                Ok(())
            }
            Action::WriteFile(file, text) => {
                let k = key(file);
                if self.broken.contains(&k) {
                    return Err("disk full".to_string());
                }
                if !self.dirs.contains(&k[..k.len() - 1].to_vec()) {
                    return Err("no such directory".to_string());
                }
                self.files.insert(k, text.clone());
                Ok(())
            }
            Action::RemoveFile(file) => match self.files.remove(&key(file)) {
                Some(_) => Ok(()),
                None => Err("not found".to_string()),
            },
            Action::RemoveDirAll(dir) => {
                let k = key(dir);
                if self.broken.contains(&k) {
                    return Err("permission denied".to_string());
                }
                if !self.dirs.contains(&k) {
                    return Err("not found".to_string());
                }
                self.dirs.retain(|d| !d.starts_with(&k));
                self.files.retain(|f, _| !f.starts_with(&k));
                Ok(())
            }
        }
    }

    fn run(&mut self, steps: &[Step]) -> Result<(), NoteError> {
        for step in steps {
            let outcome = self.perform(&step.action);
            step.settle(outcome)?;
        }
        Ok(())
    }

    fn list(&self, dir: &StorePath) -> Result<Option<Vec<DirEntry>>, String> {
        let k = key(dir);
        if self.unlistable.contains(&k) {
            return Err("cannot list".to_string());
        }
        if !self.dirs.contains(&k) {
            return Ok(None);
        }
        let mut entries = vec![];
        for d in &self.dirs {
            if d.len() == k.len() + 1 && d.starts_with(&k) {
                entries.push(DirEntry { name: d[k.len()].clone(), is_dir: true });
            }
        }
        for f in self.files.keys() {
            if f.len() == k.len() + 1 && f.starts_with(&k) {
                entries.push(DirEntry { name: f[k.len()].clone(), is_dir: false });
            }
        }
        Ok(Some(entries))
    }

    fn read(&self, file: &StorePath) -> Result<String, String> {
        self.files.get(&key(file)).cloned().ok_or_else(|| "not found".to_string())
    }

    fn read_all(&mut self, dir: &str) -> Result<Vec<Note>, NoteError> {
        let listing = self.list(&notes_dir(dir));
        let reads = match get_all_notes_fn(dir, &listing)? {
            ReadPlan::Bootstrap(step) => {
                self.run(&[step])?;
                vec![]
            }
            ReadPlan::Read(files) => files.iter().map(|f| self.read(f)).collect(),
        };
        collect_notes(&reads)
    }

    fn backup(&mut self, dir: &str, notes: &Vec<Note>, now: u64) -> Result<(), NoteError> {
        let steps = match backup_notes_at(dir, notes, now) {
            Some(steps) => steps,
            None => return Ok(()),
        };
        let written = self.run(&steps);
        let listing = self.list(&backup_dir(dir));
        self.run(&prune_after_backup(dir, &written, &listing))?;
        written
    }

    fn import(&mut self, dir: &str, sources: &Vec<ImportSource>, now: i64) -> ImportReport {
        let mut files = vec![];
        for item in import_notes_at(sources, now) {
            let written = match item.steps(dir) {
                Some(steps) => self.run(&steps),
                None => Ok(()),
            };
            files.push((item, written));
        }
        conclude_import(files)
    }

    fn names(&self, dir: &StorePath) -> Vec<String> {
        let mut names: Vec<String> =
            self.list(dir).unwrap().unwrap_or_default().into_iter().map(|e| e.name).collect();
        names.sort();
        names
    }
}

fn note(uuid: &str, title: &str, body: &str) -> Note {
    let mut text = title.to_string();
    text.push('\n');
    text.push_str(body);
    Note {
        uuid: uuid.to_string(),
        timestamp: 1000,
        content: NoteContent {
            title: title.to_string(),
            body: body.to_string(),
            delta: Delta { ops: Some(vec![DeltaOp::insert(text)]) },
        },
    }
}

fn path(root: &str, parts: &[&str]) -> StorePath {
    StorePath { root: root.to_string(), parts: parts.iter().map(|p| p.to_string()).collect() }
}

fn source(path: &str, name: &str, text: &str) -> ImportSource {
    ImportSource { path: path.to_string(), name: name.to_string(), contents: Ok(text.to_string()) }
}

const UUID_A: &str = "936da01f-9abd-4d9d-80c7-02af85c822a8";

#[test]
fn app_state_holds_the_root() {
    let state = AppState::new("/data".to_string());
    assert_eq!(state.app_dir, "/data");
}

#[test]
fn store_path_join_adds_one_name() {
    let base = StorePath::new("/r");
    assert_eq!(base, path("/r", &[]));
    assert_eq!(base.join("a").join("b/c"), path("/r", &["a", "b/c"]));
    assert_eq!(base.join("a").clone(), path("/r", &["a"]));
}

#[test]
fn settle_turns_a_failure_into_the_error_of_the_step() {
    let file = path("/r", &["x"]);
    for (kind, expected) in [
        (FailureKind::Write, NoteError::WriteFailure("boom".to_string())),
        (FailureKind::Read, NoteError::ReadFailure("boom".to_string())),
        (FailureKind::Delete, NoteError::DeleteFailure("boom".to_string())),
        (FailureKind::Malformed, NoteError::MalformedRecord("boom".to_string())),
        (FailureKind::Sync, NoteError::SyncFailure("boom".to_string())),
        (FailureKind::Backup, NoteError::BackupFailure("boom".to_string())),
    ] {
        let step = Step { action: Action::RemoveFile(file.clone()), policy: Policy::Abort(kind) };
        assert_eq!(step.settle(Err("boom".to_string())), Err(expected));
        assert_eq!(step.settle(Ok(())), Ok(()));
        assert_eq!(NoteError::new(kind, "boom".to_string()), step.settle(Err("boom".to_string())).unwrap_err());
    }
}

#[test]
fn settle_passes_over_a_failure_that_is_ignored() {
    let step = Step { action: Action::RemoveDirAll(path("/r", &["x"])), policy: Policy::Ignore };
    assert_eq!(step.settle(Err("boom".to_string())), Ok(()));
    assert_eq!(step.settle(Ok(())), Ok(()));
}

#[test]
fn push_all_appends_in_order() {
    let a = Step { action: Action::RemoveFile(path("/r", &["a"])), policy: Policy::Ignore };
    let b = Step { action: Action::RemoveFile(path("/r", &["b"])), policy: Policy::Ignore };
    let c = Step { action: Action::RemoveFile(path("/r", &["c"])), policy: Policy::Ignore };
    let mut steps = vec![a];
    push_all(&mut steps, vec![b, c]);
    let names: Vec<String> = steps
        .iter()
        .map(|s| match &s.action {
            Action::RemoveFile(p) => p.parts[0].clone(),
            _ => unreachable!(),
        })
        .collect();
    assert_eq!(names, vec!["a", "b", "c"]);
}

#[test]
fn new_note_makes_the_directory_and_writes_the_record() {
    let n = note("abc", "T", "B");
    let steps = new_note_fn("/r", &n);
    assert_eq!(
        steps,
        vec![
            Step {
                action: Action::EnsureDir(path("/r", &[".notes"])),
                policy: Policy::Abort(FailureKind::Write),
            },
            Step {
                action: Action::WriteFile(path("/r", &[".notes", "abc.json"]), n.serialize()),
                policy: Policy::Abort(FailureKind::Write),
            },
        ]
    );
    assert_eq!(notes_dir("/r"), path("/r", &[".notes"]));
}

#[test]
fn new_note_on_a_fresh_root_is_no_error() {
    let mut disk = Disk::new();
    let n = note("abc", "T", "B");
    assert_eq!(disk.run(&new_note_fn("/r", &n)), Ok(()));
    assert_eq!(disk.read(&Note::get_path("/r", &n.uuid)), Ok(n.serialize()));
}

#[test]
fn new_note_twice_leaves_one_file_with_the_second_content() {
    let mut disk = Disk::new();
    let first = note("abc", "First", "one");
    let second = note("abc", "Second", "two");
    disk.run(&new_note_fn("/r", &first)).unwrap();
    disk.run(&new_note_fn("/r", &second)).unwrap();
    assert_eq!(disk.files.len(), 1);
    assert_eq!(disk.names(&notes_dir("/r")), vec!["abc.json"]);
    assert_eq!(disk.read_all("/r").unwrap(), vec![second]);
}

#[test]
fn new_note_that_cannot_be_written_is_a_write_failure() {
    let mut disk = Disk::new();
    disk.broken.insert(vec!["/r".to_string(), ".notes".to_string(), "abc.json".to_string()]);
    let n = note("abc", "T", "B");
    assert_eq!(
        disk.run(&new_note_fn("/r", &n)),
        Err(NoteError::WriteFailure("disk full".to_string()))
    );
    let mut locked = Disk::new();
    locked.broken.insert(vec!["/r".to_string(), ".notes".to_string()]);
    assert_eq!(
        locked.run(&new_note_fn("/r", &n)),
        Err(NoteError::WriteFailure("permission denied".to_string()))
    );
}

#[test]
fn edit_note_writes_as_new_note_does() {
    let n = note("abc", "T", "B");
    assert_eq!(edit_note_fn("/r", &n), new_note_fn("/r", &n));
}

#[test]
fn edit_note_of_a_missing_note_creates_it() {
    let mut disk = Disk::new();
    let n = note("ghost", "T", "B");
    assert_eq!(disk.run(&edit_note_fn("/r", &n)), Ok(()));
    assert_eq!(disk.read_all("/r").unwrap(), vec![n]);
}

#[test]
fn edit_note_replaces_the_content_and_keeps_the_identifier() {
    let mut disk = Disk::new();
    let n = note("abc", "T", "B");
    disk.run(&new_note_fn("/r", &n)).unwrap();
    let mut changed = note("abc", "T2", "B2");
    changed.timestamp = 2000;
    disk.run(&edit_note_fn("/r", &changed)).unwrap();
    assert_eq!(disk.read_all("/r").unwrap(), vec![changed]);
}

#[test]
fn delete_note_removes_the_file() {
    let step = delete_note_fn("/r", &"abc".to_string());
    assert_eq!(
        step,
        Step {
            action: Action::RemoveFile(path("/r", &[".notes", "abc.json"])),
            policy: Policy::Abort(FailureKind::Delete),
        }
    );
    let mut disk = Disk::new();
    disk.run(&new_note_fn("/r", &note("abc", "T", "B"))).unwrap();
    disk.run(&new_note_fn("/r", &note("def", "T", "B"))).unwrap();
    assert_eq!(disk.run(&[step]), Ok(()));
    assert_eq!(disk.names(&notes_dir("/r")), vec!["def.json"]);
}

#[test]
fn delete_note_of_a_missing_note_is_a_delete_failure() {
    let mut disk = Disk::new();
    assert_eq!(
        disk.run(&[delete_note_fn("/r", &"abc".to_string())]),
        Err(NoteError::DeleteFailure("not found".to_string()))
    );
}

#[test]
fn get_all_notes_without_the_directory_makes_it() {
    let plan = get_all_notes_fn("/r", &Ok(None));
    assert_eq!(
        plan,
        Ok(ReadPlan::Bootstrap(Step {
            action: Action::EnsureDir(path("/r", &[".notes"])),
            policy: Policy::Abort(FailureKind::Write),
        }))
    );
    let mut disk = Disk::new();
    assert_eq!(disk.read_all("/r"), Ok(vec![]));
    assert!(disk.list(&notes_dir("/r")).unwrap().is_some());
}

#[test]
fn get_all_notes_reads_the_json_entries_in_order() {
    let entries = vec![
        DirEntry { name: "b.json".to_string(), is_dir: false },
        DirEntry { name: "readme.txt".to_string(), is_dir: false },
        DirEntry { name: "a.json".to_string(), is_dir: false },
        DirEntry { name: "json".to_string(), is_dir: false },
        DirEntry { name: ".json".to_string(), is_dir: false },
        DirEntry { name: "c.JSON".to_string(), is_dir: false },
        DirEntry { name: "d.json.bak".to_string(), is_dir: false },
    ];
    assert_eq!(
        get_all_notes_fn("/r", &Ok(Some(entries))),
        Ok(ReadPlan::Read(vec![path("/r", &[".notes", "b.json"]), path("/r", &[".notes", "a.json"])]))
    );
    assert_eq!(get_all_notes_fn("/r", &Ok(Some(vec![]))), Ok(ReadPlan::Read(vec![])));
}

#[test]
fn collect_notes_gives_the_notes_in_order() {
    let a = note("a", "A", "1");
    let b = note("b", "B", "2");
    assert_eq!(collect_notes(&vec![Ok(b.serialize()), Ok(a.serialize())]), Ok(vec![b, a]));
    assert_eq!(collect_notes(&vec![]), Ok(vec![]));
}

#[test]
fn collect_notes_fails_on_one_malformed_record() {
    let a = note("a", "A", "1");
    let result = collect_notes(&vec![Ok(a.serialize()), Ok("{oops".to_string()), Ok(a.serialize())]);
    assert!(matches!(result, Err(NoteError::MalformedRecord(_))));
}

#[test]
fn collect_notes_fails_on_a_read_that_failed() {
    let a = note("a", "A", "1");
    let result = collect_notes(&vec![Ok(a.serialize()), Err("denied".to_string())]);
    assert_eq!(result, Err(NoteError::ReadFailure("denied".to_string())));
}

#[test]
fn collect_notes_reports_the_first_failure() {
    let first = collect_notes(&vec![Err("one".to_string()), Ok("{oops".to_string())]);
    assert_eq!(first, Err(NoteError::ReadFailure("one".to_string())));
    let second = collect_notes(&vec![Ok("{oops".to_string()), Err("one".to_string())]);
    assert!(matches!(second, Err(NoteError::MalformedRecord(_))));
}

#[test]
fn read_all_reads_legacy_records() {
    let mut disk = Disk::new();
    disk.perform(&Action::EnsureDir(notes_dir("/r"))).unwrap();
    disk.perform(&Action::WriteFile(
        path("/r", &[".notes", "abc.json"]),
        "{\"id\":\"abc\",\"timestamp\":3,\"content\":{\"title\":\"t\",\"body\":\"b\",\"delta\":{}}}".to_string(),
    ))
    .unwrap();
    let notes = disk.read_all("/r").unwrap();
    assert_eq!(notes.len(), 1);
    assert_eq!(notes[0].uuid, "abc");
    assert_eq!(notes[0].timestamp, 3);
}

#[test]
fn sync_with_nothing_empties_the_store() {
    let mut disk = Disk::new();
    for i in 0..5 {
        disk.run(&new_note_fn("/r", &note(&format!("n{}", i), "T", "B"))).unwrap();
    }
    assert_eq!(disk.read_all("/r").unwrap().len(), 5);
    assert_eq!(disk.run(&sync_local_notes_fn("/r", &vec![])), Ok(()));
    assert!(disk.files.is_empty());
    assert_eq!(disk.read_all("/r"), Ok(vec![]));
}

#[test]
fn sync_replaces_the_store() {
    let mut disk = Disk::new();
    disk.run(&new_note_fn("/r", &note("old1", "T", "B"))).unwrap();
    disk.run(&new_note_fn("/r", &note("keep", "Old", "text"))).unwrap();
    disk.run(&new_note_fn("/other", &note("elsewhere", "T", "B"))).unwrap();
    let list = vec![note("keep", "New", "text"), note("new1", "T", "B")];
    assert_eq!(disk.run(&sync_local_notes_fn("/r", &list)), Ok(()));
    assert_eq!(disk.names(&notes_dir("/r")), vec!["keep.json", "new1.json"]);
    assert_eq!(disk.read_all("/r").unwrap(), list);
    assert_eq!(disk.names(&notes_dir("/other")), vec!["elsewhere.json"]);
}

#[test]
fn sync_steps_clear_first_and_then_create_each_note() {
    let list = vec![note("a", "A", "1"), note("b", "B", "2")];
    let mut expected = vec![Step {
        action: Action::RemoveDirAll(path("/r", &[".notes"])),
        policy: Policy::Abort(FailureKind::Sync),
    }];
    expected.extend(new_note_fn("/r", &list[0]));
    expected.extend(new_note_fn("/r", &list[1]));
    assert_eq!(sync_local_notes_fn("/r", &list), expected);
}

#[test]
fn sync_that_cannot_clear_is_a_sync_failure_and_changes_nothing() {
    let mut disk = Disk::new();
    disk.run(&new_note_fn("/r", &note("old", "T", "B"))).unwrap();
    disk.broken.insert(vec!["/r".to_string(), ".notes".to_string()]);
    let result = disk.run(&sync_local_notes_fn("/r", &vec![note("new", "T", "B")]));
    assert_eq!(result, Err(NoteError::SyncFailure("permission denied".to_string())));
    assert_eq!(disk.names(&notes_dir("/r")), vec!["old.json"]);
    let mut empty = Disk::new();
    assert_eq!(
        empty.run(&sync_local_notes_fn("/r", &vec![])),
        Err(NoteError::SyncFailure("not found".to_string()))
    );
}

#[test]
fn sync_that_fails_in_a_write_leaves_a_part_of_the_list() {
    let mut disk = Disk::new();
    disk.run(&new_note_fn("/r", &note("old", "T", "B"))).unwrap();
    disk.broken.insert(vec!["/r".to_string(), ".notes".to_string(), "b.json".to_string()]);
    let list = vec![note("a", "A", "1"), note("b", "B", "2"), note("c", "C", "3")];
    let result = disk.run(&sync_local_notes_fn("/r", &list));
    assert_eq!(result, Err(NoteError::WriteFailure("disk full".to_string())));
    assert_eq!(disk.names(&notes_dir("/r")), vec!["a.json"]);
}

#[test]
fn backup_of_nothing_does_nothing() {
    assert_eq!(backup_notes_at("/r", &vec![], 500), None);
    assert_eq!(backup_notes_fn("/r", &vec![]), Ok(None));
    let mut disk = Disk::new();
    assert_eq!(disk.backup("/r", &vec![], 500), Ok(()));
    assert!(disk.dirs.is_empty());
    assert!(disk.files.is_empty());
}

#[test]
fn backup_of_empty_notes_does_nothing() {
    let empty = note("abc", "", "");
    assert!(empty.is_empty());
    assert_eq!(backup_notes_at("/r", &vec![note("abc", "", "")], 500), None);
    assert_eq!(backup_notes_at("/r", &vec![note("a", "", ""), note("b", "", "")], 500), None);
    assert_eq!(backup_notes_fn("/r", &vec![note("abc", "", "")]), Ok(None));
    let mut disk = Disk::new();
    assert_eq!(disk.backup("/r", &vec![empty], 500), Ok(()));
    assert!(disk.dirs.is_empty());
    assert_eq!(disk.list(&backup_dir("/r")), Ok(None));
}

#[test]
fn only_empty_notes_asks_every_note() {
    assert!(only_empty_notes(&vec![]));
    assert!(only_empty_notes(&vec![note("a", "", "")]));
    assert!(!only_empty_notes(&vec![note("a", "", ""), note("b", "", "x")]));
    assert!(!only_empty_notes(&vec![note("a", "t", ""), note("b", "", "")]));
}

#[test]
fn backup_writes_every_note_into_the_snapshot_of_the_second() {
    let list = vec![note("a", "A", "1"), note("b", "", "")];
    let steps = backup_notes_at("/r", &list, 1700000000).unwrap();
    let folder = path("/r", &[".backup", "1700000000"]);
    let mut expected =
        vec![Step { action: Action::EnsureDir(path("/r", &[".backup"])), policy: Policy::Ignore }];
    expected.extend(write_note(&folder, &list[0], FailureKind::Backup));
    expected.extend(write_note(&folder, &list[1], FailureKind::Backup));
    assert_eq!(steps, expected);
    assert_eq!(
        steps[2],
        Step {
            action: Action::WriteFile(path("/r", &[".backup", "1700000000", "a.json"]), list[0].serialize()),
            policy: Policy::Abort(FailureKind::Backup),
        }
    );
    assert_eq!(backup_dir("/r"), path("/r", &[".backup"]));
}

#[test]
fn backup_keeps_the_three_youngest_snapshots() {
    let mut disk = Disk::new();
    let list = vec![note("a", "A", "1")];
    for t in [100, 200, 300, 400] {
        disk.perform(&Action::EnsureDir(path("/r", &[".backup", &t.to_string()]))).unwrap();
        disk.perform(&Action::WriteFile(
            path("/r", &[".backup", &t.to_string(), "a.json"]),
            list[0].serialize(),
        ))
        .unwrap();
    }
    assert_eq!(disk.backup("/r", &list, 500), Ok(()));
    assert_eq!(disk.names(&backup_dir("/r")), vec!["300", "400", "500"]);
    assert_eq!(disk.read(&path("/r", &[".backup", "500", "a.json"])), Ok(list[0].serialize()));
    assert_eq!(disk.read(&path("/r", &[".backup", "100", "a.json"])), Err("not found".to_string()));
}

#[test]
fn remove_old_backups_removes_the_oldest_first() {
    let entries: Vec<DirEntry> = ["400", "100", "notes", "500", "300", "200"]
        .iter()
        .map(|n| DirEntry { name: n.to_string(), is_dir: true })
        .chain(std::iter::once(DirEntry { name: "50".to_string(), is_dir: false }))
        .collect();
    assert_eq!(
        remove_old_backups("/r", &entries),
        vec![
            Step { action: Action::RemoveDirAll(path("/r", &[".backup", "100"])), policy: Policy::Ignore },
            Step { action: Action::RemoveDirAll(path("/r", &[".backup", "200"])), policy: Policy::Ignore },
        ]
    );
    let few: Vec<DirEntry> =
        ["2", "1", "3"].iter().map(|n| DirEntry { name: n.to_string(), is_dir: true }).collect();
    assert_eq!(remove_old_backups("/r", &few), vec![]);
}

#[test]
fn pruning_leaves_other_entries_alone_and_swallows_failures() {
    let mut disk = Disk::new();
    let list = vec![note("a", "A", "1")];
    for name in ["1", "2", "3", "4", "keep-me", "old"] {
        disk.perform(&Action::EnsureDir(path("/r", &[".backup", name]))).unwrap();
    }
    disk.broken.insert(vec!["/r".to_string(), ".backup".to_string(), "1".to_string()]);
    assert_eq!(disk.backup("/r", &list, 5), Ok(()));
    assert_eq!(disk.names(&backup_dir("/r")), vec!["1", "3", "4", "5", "keep-me", "old"]);
}

#[test]
fn backup_that_cannot_write_is_a_backup_failure() {
    let mut disk = Disk::new();
    disk.broken.insert(vec![
        "/r".to_string(),
        ".backup".to_string(),
        "9".to_string(),
        "b.json".to_string(),
    ]);
    let list = vec![note("a", "A", "1"), note("b", "B", "2")];
    assert_eq!(disk.backup("/r", &list, 9), Err(NoteError::BackupFailure("disk full".to_string())));
    assert_eq!(disk.names(&path("/r", &[".backup", "9"])), vec!["a.json"]);
}

#[test]
fn backup_goes_on_when_the_backup_root_cannot_be_made() {
    let mut disk = Disk::new();
    disk.broken.insert(vec!["/r".to_string(), ".backup".to_string()]);
    let list = vec![note("a", "A", "1")];
    assert_eq!(disk.backup("/r", &list, 9), Ok(()));
    assert_eq!(disk.names(&path("/r", &[".backup", "9"])), vec!["a.json"]);
}

#[test]
fn changing_a_live_note_leaves_the_snapshots_alone() {
    let mut disk = Disk::new();
    let first = note("a", "A", "1");
    disk.run(&new_note_fn("/r", &first)).unwrap();
    disk.backup("/r", &vec![note("a", "A", "1")], 7).unwrap();
    disk.run(&edit_note_fn("/r", &note("a", "A2", "2"))).unwrap();
    disk.run(&[delete_note_fn("/r", &"a".to_string())]).unwrap();
    assert_eq!(disk.read(&path("/r", &[".backup", "7", "a.json"])), Ok(first.serialize()));
}

#[test]
fn import_takes_the_valid_files_and_reports_the_corrupt_one() {
    let valid = note("inner", "Valid", "note");
    let sources = vec![
        source("/in/validFile.json", "validFile.json", &valid.serialize()),
        source("/in/corruptFile.json", "corruptFile.json", "{\"uuid\": "),
        source("/in/plainText.txt", "plainText.txt", "Plain title\nPlain body\nmore"),
    ];
    let mut disk = Disk::new();
    let report = disk.import("/r", &sources, 4242);
    assert_eq!(report.imported.len(), 2);
    assert_eq!(report.errors.len(), 1);
    assert_eq!(report.errors[0].path, "/in/corruptFile.json");
    assert!(matches!(report.errors[0].error, NoteError::MalformedRecord(_)));
    assert_eq!(report.imported[0].content, valid.content);
    assert_eq!(report.imported[0].timestamp, 4242);
    assert_eq!(report.imported[1].content.title, "Plain title");
    assert_eq!(report.imported[1].content.body, "Plain body");
    assert_eq!(report.imported[1].timestamp, 4242);
    assert_eq!(
        report.imported[1].content.delta.ops,
        Some(vec![DeltaOp::insert("Plain title\nPlain body\nmore".to_string())])
    );
    let stored = disk.read_all("/r").unwrap();
    assert_eq!(stored.len(), 2);
    for n in &report.imported {
        assert!(is_uuid(&n.uuid));
        assert_eq!(disk.read(&Note::get_path("/r", &n.uuid)), Ok(n.serialize()));
    }
    assert!(matches!(report.finish(), Err(NoteError::ImportBatchFailure(errors)) if errors.len() == 1));
}

#[test]
fn import_adopts_a_stem_that_is_a_uuid() {
    let name = format!("{}.txt", UUID_A);
    let item = import_note(&source("/in/x", &name, "hello"), 5);
    assert_eq!(item.path, "/in/x");
    assert_eq!(item.outcome.unwrap().uuid, UUID_A);
    let record = note("inner", "T", "B").serialize();
    let json_name = format!("{}.json", UUID_A);
    let item = import_note(&source("/in/y", &json_name, &record), 5);
    let imported = item.outcome.unwrap();
    assert_eq!(imported.uuid, UUID_A);
    assert_eq!(imported.timestamp, 5);
}

#[test]
fn import_makes_a_fresh_identifier_for_other_stems() {
    let record = note("inner", "T", "B").serialize();
    let one = import_note(&source("/in/a.json", "a.json", &record), 5).outcome.unwrap();
    let two = import_note(&source("/in/a.json", "a.json", &record), 5).outcome.unwrap();
    assert!(is_uuid(&one.uuid));
    assert_eq!(one.uuid.len(), 36);
    assert_ne!(one.uuid, "inner");
    assert_ne!(one.uuid, "a");
    assert_ne!(one.uuid, two.uuid);
    assert_eq!(one.content, two.content);
}

#[test]
fn import_text_reads_a_record_first_and_free_text_otherwise() {
    let record = note("inner", "T", "B");
    let from_txt = import_text("n.txt", &record.serialize(), "u".to_string(), 9).unwrap();
    assert_eq!(from_txt, Note { uuid: "u".to_string(), timestamp: 9, content: note("x", "T", "B").content });
    let free = import_text("n.md", "# Title\nbody", "u".to_string(), 9).unwrap();
    assert_eq!(free, Note::from_text("# Title\nbody".to_string(), "u".to_string(), 9));
    let no_ext = import_text("README", "not { json", "u".to_string(), 9).unwrap();
    assert_eq!(no_ext.content.title, "not { json");
    let upper = import_text("n.JSON", "oops", "u".to_string(), 9).unwrap();
    assert_eq!(upper.content.title, "oops");
    assert!(matches!(
        import_text("n.json", "oops", "u".to_string(), 9),
        Err(NoteError::MalformedRecord(_))
    ));
}

#[test]
fn import_reports_a_file_that_could_not_be_read() {
    let unread = ImportSource {
        path: "/in/gone.txt".to_string(),
        name: "gone.txt".to_string(),
        contents: Err("no such file".to_string()),
    };
    let item = import_note(&unread, 1);
    assert_eq!(
        item,
        ImportItem {
            path: "/in/gone.txt".to_string(),
            outcome: Err(NoteError::ReadFailure("no such file".to_string())),
        }
    );
    assert_eq!(item.steps("/r"), None);
}

#[test]
fn import_goes_on_after_a_failure_and_reports_every_error() {
    let sources = vec![
        ImportSource { path: "1".to_string(), name: "1.txt".to_string(), contents: Err("e1".to_string()) },
        source("2", "2.json", "{"),
        source("3", "3.txt", "fine"),
        ImportSource { path: "4".to_string(), name: "4.json".to_string(), contents: Err("e4".to_string()) },
    ];
    let mut disk = Disk::new();
    let report = disk.import("/r", &sources, 1);
    assert_eq!(report.imported.len(), 1);
    let paths: Vec<&str> = report.errors.iter().map(|e| e.path.as_str()).collect();
    assert_eq!(paths, vec!["1", "2", "4"]);
    assert_eq!(report.errors[0].error, NoteError::ReadFailure("e1".to_string()));
    assert_eq!(report.errors[2].error, NoteError::ReadFailure("e4".to_string()));
    assert_eq!(disk.read_all("/r").unwrap().len(), 1);
}

#[test]
fn import_reports_a_note_that_could_not_be_written() {
    let name = format!("{}.txt", UUID_A);
    let mut disk = Disk::new();
    disk.broken.insert(vec!["/r".to_string(), ".notes".to_string(), format!("{}.json", UUID_A)]);
    let report = disk.import("/r", &vec![source("/in/a", &name, "x"), source("/in/b", "b.txt", "y")], 1);
    assert_eq!(report.imported.len(), 1);
    assert_eq!(
        report.errors,
        vec![ImportFailure {
            path: "/in/a".to_string(),
            error: NoteError::WriteFailure("disk full".to_string()),
        }]
    );
}

#[test]
fn import_without_failures_succeeds() {
    let mut disk = Disk::new();
    let report = disk.import("/r", &vec![source("a", "a.txt", "A"), source("b", "b.txt", "B")], 1);
    let notes = report.finish().unwrap();
    assert_eq!(notes.len(), 2);
    assert_eq!(notes[0].content.title, "A");
    assert_eq!(notes[1].content.title, "B");
    assert_eq!(ImportReport::new().finish(), Ok(vec![]));
}

#[test]
fn import_item_steps_create_the_note() {
    let n = note("abc", "T", "B");
    let item = ImportItem { path: "p".to_string(), outcome: Ok(note("abc", "T", "B")) };
    assert_eq!(item.steps("/r"), Some(new_note_fn("/r", &n)));
}

#[test]
fn export_writes_the_inserted_text() {
    let n = Note {
        uuid: "abc".to_string(),
        timestamp: 0,
        content: NoteContent {
            title: "".to_string(),
            body: "".to_string(),
            delta: Delta {
                ops: Some(vec![
                    DeltaOp::insert("Hello ".to_string()),
                    DeltaOp::insert("World".to_string()),
                ]),
            },
        },
    };
    let bare = Note {
        uuid: "def".to_string(),
        timestamp: 0,
        content: NoteContent {
            title: "Title".to_string(),
            body: "Body".to_string(),
            delta: Delta { ops: None },
        },
    };
    let steps = export_notes_fn("/out", &vec![n, bare]);
    assert_eq!(
        steps,
        vec![
            Step {
                action: Action::WriteFile(path("/out", &["abc.txt"]), "Hello World".to_string()),
                policy: Policy::Abort(FailureKind::Write),
            },
            Step {
                action: Action::WriteFile(path("/out", &["def.txt"]), "".to_string()),
                policy: Policy::Abort(FailureKind::Write),
            },
        ]
    );
    let mut disk = Disk::new();
    disk.perform(&Action::EnsureDir(path("/out", &[]))).unwrap();
    assert_eq!(disk.run(&steps), Ok(()));
    assert_eq!(disk.read(&path("/out", &["abc.txt"])), Ok("Hello World".to_string()));
    assert_eq!(disk.read(&path("/out", &["def.txt"])), Ok("".to_string()));
}

#[test]
fn export_of_nothing_writes_nothing() {
    assert_eq!(export_notes_fn("/out", &vec![]), vec![]);
}

#[test]
fn export_into_a_missing_directory_is_a_write_failure() {
    let mut disk = Disk::new();
    let steps = export_notes_fn("/out", &vec![note("a", "A", "1")]);
    assert_eq!(disk.run(&steps), Err(NoteError::WriteFailure("no such directory".to_string())));
}

#[test]
fn export_passes_over_inserts_that_are_no_strings() {
    let n = Note {
        uuid: "abc".to_string(),
        timestamp: 0,
        content: NoteContent {
            title: "".to_string(),
            body: "".to_string(),
            delta: Delta {
                ops: Some(vec![
                    DeltaOp::insert("a".to_string()),
                    DeltaOp { fields: vec![("insert".to_string(), Json::Int(1))] },
                    DeltaOp { fields: vec![("retain".to_string(), Json::Int(1))] },
                    DeltaOp::insert("b".to_string()),
                ]),
            },
        },
    };
    assert_eq!(
        export_notes_fn("/out", &vec![n])[0].action,
        Action::WriteFile(path("/out", &["abc.txt"]), "ab".to_string())
    );
}

#[test]
fn backup_now_names_the_snapshot_by_the_seconds_of_the_clock() {
    let list = vec![note("a", "A", "1")];
    let before = std::time::SystemTime::now()
        .duration_since(std::time::UNIX_EPOCH)
        .unwrap()
        .as_secs();
    let steps = backup_notes_fn("/r", &list).unwrap().unwrap();
    let after = std::time::SystemTime::now()
        .duration_since(std::time::UNIX_EPOCH)
        .unwrap()
        .as_secs();
    let name = match &steps[1].action {
        Action::EnsureDir(folder) => {
            assert_eq!(folder.root, "/r");
            assert_eq!(folder.parts.len(), 2);
            assert_eq!(folder.parts[0], ".backup");
            folder.parts[1].clone()
        }
        other => panic!("{:?}", other),
    };
    let secs: u64 = name.parse().unwrap();
    assert!(before <= secs && secs <= after);
    assert_eq!(Some(steps), backup_notes_at("/r", &list, secs));
}

#[test]
fn import_now_gives_every_note_the_time_of_the_clock() {
    let before = std::time::SystemTime::now()
        .duration_since(std::time::UNIX_EPOCH)
        .unwrap()
        .as_millis() as i64;
    let items = import_notes_fn(&vec![source("a", "a.txt", "A"), source("b", "b.txt", "B")]);
    let after = std::time::SystemTime::now()
        .duration_since(std::time::UNIX_EPOCH)
        .unwrap()
        .as_millis() as i64;
    assert_eq!(items.len(), 2);
    let first = items[0].outcome.as_ref().unwrap();
    let second = items[1].outcome.as_ref().unwrap();
    assert!(before <= first.timestamp && first.timestamp <= after);
    assert_eq!(first.timestamp, second.timestamp);
    assert_eq!(first.content.title, "A");
    assert_eq!(second.content.title, "B");
}

#[test]
fn get_all_notes_with_a_listing_that_failed_is_a_read_failure() {
    assert_eq!(
        get_all_notes_fn("/r", &Err("denied".to_string())),
        Err(NoteError::ReadFailure("denied".to_string()))
    );
    let mut disk = Disk::new();
    disk.run(&new_note_fn("/r", &note("a", "A", "1"))).unwrap();
    disk.unlistable.insert(vec!["/r".to_string(), ".notes".to_string()]);
    assert_eq!(disk.read_all("/r"), Err(NoteError::ReadFailure("cannot list".to_string())));
}

#[test]
fn prune_after_backup_prunes_only_after_success_and_a_listing() {
    let entries: Vec<DirEntry> = ["4", "1", "3", "2"]
        .iter()
        .map(|n| DirEntry { name: n.to_string(), is_dir: true })
        .collect();
    let expected = vec![Step {
        action: Action::RemoveDirAll(path("/r", &[".backup", "1"])),
        policy: Policy::Ignore,
    }];
    assert_eq!(remove_old_backups("/r", &entries), expected);
    let listed = Ok(Some(entries));
    assert_eq!(prune_after_backup("/r", &Ok(()), &listed), expected);
    let failed = Err(NoteError::BackupFailure("disk full".to_string()));
    assert_eq!(prune_after_backup("/r", &failed, &listed), vec![]);
    assert_eq!(prune_after_backup("/r", &Ok(()), &Ok(None)), vec![]);
    assert_eq!(prune_after_backup("/r", &Ok(()), &Err("denied".to_string())), vec![]);
}

#[test]
fn backup_passes_over_a_listing_that_failed() {
    let mut disk = Disk::new();
    for name in ["1", "2", "3", "4"] {
        disk.perform(&Action::EnsureDir(path("/r", &[".backup", name]))).unwrap();
    }
    disk.unlistable.insert(vec!["/r".to_string(), ".backup".to_string()]);
    assert_eq!(disk.backup("/r", &vec![note("a", "A", "1")], 5), Ok(()));
    disk.unlistable.clear();
    assert_eq!(disk.names(&backup_dir("/r")), vec!["1", "2", "3", "4", "5"]);
}

#[test]
fn backup_that_failed_prunes_nothing() {
    let mut disk = Disk::new();
    for name in ["1", "2", "3", "4"] {
        disk.perform(&Action::EnsureDir(path("/r", &[".backup", name]))).unwrap();
    }
    disk.broken.insert(vec!["/r".to_string(), ".backup".to_string(), "5".to_string(), "a.json".to_string()]);
    assert_eq!(
        disk.backup("/r", &vec![note("a", "A", "1")], 5),
        Err(NoteError::BackupFailure("disk full".to_string()))
    );
    assert_eq!(disk.names(&backup_dir("/r")), vec!["1", "2", "3", "4", "5"]);
}

#[test]
fn conclude_import_keeps_the_order_of_the_files() {
    let ok = |p: &str, u: &str| ImportItem { path: p.to_string(), outcome: Ok(note(u, "T", "B")) };
    let files = vec![
        (ok("1", "a"), Ok(())),
        (
            ImportItem {
                path: "2".to_string(),
                outcome: Err(NoteError::ReadFailure("gone".to_string())),
            },
            Ok(()),
        ),
        (ok("3", "c"), Err(NoteError::WriteFailure("full".to_string()))),
        (ok("4", "d"), Ok(())),
    ];
    let report = conclude_import(files);
    assert_eq!(report.imported, vec![note("a", "T", "B"), note("d", "T", "B")]);
    assert_eq!(
        report.errors,
        vec![
            ImportFailure { path: "2".to_string(), error: NoteError::ReadFailure("gone".to_string()) },
            ImportFailure { path: "3".to_string(), error: NoteError::WriteFailure("full".to_string()) },
        ]
    );
    assert!(matches!(report.finish(), Err(NoteError::ImportBatchFailure(errors)) if errors.len() == 2));
    assert_eq!(conclude_import(vec![]).finish(), Ok(vec![]));
    assert_eq!(
        conclude_import(vec![(ok("1", "a"), Ok(()))]).finish(),
        Ok(vec![note("a", "T", "B")])
    );
}
