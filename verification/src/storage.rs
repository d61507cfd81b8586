//! Locations below a storage root, the file operations that the engine asks
//! for, and what those operations do to a volume.

use vstd::prelude::*;

use crate::error::{FailureKind, NoteError};

verus! {

/// A location: a root directory and the names of the entries that lead down
/// from it. Each part is one name, whatever it holds: whoever performs an
/// action on the file system must refuse a part that the file system would
/// take apart, and not follow it.
#[derive(Debug, PartialEq, Eq)]
pub struct StorePath {
    pub root: String,
    pub parts: Vec<String>,
}

/// What a `StorePath` stands for.
pub struct Location {
    pub root: Seq<char>,
    pub parts: Seq<Seq<char>>,
}

impl Location {
    /// The entry `name` directly below this location.
    pub open spec fn join(self, name: Seq<char>) -> Location {
        Location { root: self.root, parts: self.parts.push(name) }
    }

    /// Whether this location is `dir` or lies below it.
    pub open spec fn within(self, dir: Location) -> bool {
        self.root == dir.root && dir.parts.is_prefix_of(self.parts)
    }
}

impl View for StorePath {
    type V = Location;

    open spec fn view(&self) -> Location {
        Location { root: self.root@, parts: self.parts.deep_view() }
    }
}

impl DeepView for StorePath {
    type V = Location;

    open spec fn deep_view(&self) -> Location {
        self@
    }
}

impl Clone for StorePath {
    fn clone(&self) -> (path: StorePath)
        ensures
            path@ == self@,
    {
        let mut parts: Vec<String> = Vec::new();
        let mut i: usize = 0;
        while i < self.parts.len()
            invariant
                i <= self.parts.len(),
                parts.len() == i,
                forall|j: int| 0 <= j < i ==> parts@[j]@ == self.parts@[j]@,
            decreases self.parts.len() - i,
        {
            parts.push(self.parts[i].clone());
            i = i + 1;
        }
        assert(parts.deep_view() =~= self.parts.deep_view());
        StorePath { root: self.root.clone(), parts }
    }
}

impl StorePath {
    /// The root directory itself.
    pub fn new(root: &str) -> (path: StorePath)
        ensures
            path@ == (Location { root: root@, parts: Seq::empty() }),
    {
        let path = StorePath { root: root.to_owned(), parts: Vec::new() };
        assert(path@.parts =~= Seq::empty());
        path
    }

    /// The entry `name` directly below this location.
    pub fn join(&self, name: &str) -> (path: StorePath)
        ensures
            path@ == self@.join(name@),
    {
        let mut path = self.clone();
        path.parts.push(name.to_owned());
        assert(path@.parts =~= self@.parts.push(name@));
        path
    }
}

/// An entry of a directory, as a listing gives it.
#[derive(Debug, PartialEq, Eq)]
pub struct DirEntry {
    pub name: String,
    pub is_dir: bool,
}

/// What a `DirEntry` stands for.
pub struct Entry {
    pub name: Seq<char>,
    pub is_dir: bool,
}

impl View for DirEntry {
    type V = Entry;

    open spec fn view(&self) -> Entry {
        Entry { name: self.name@, is_dir: self.is_dir }
    }
}

impl DeepView for DirEntry {
    type V = Entry;

    open spec fn deep_view(&self) -> Entry {
        self@
    }
}

/// A file operation that the engine asks its caller to perform.
#[derive(Debug, PartialEq, Eq)]
pub enum Action {
    /// Create the directory and its missing parents, unless it is already a directory.
    EnsureDir(StorePath),
    /// Create the file, or empty it if it is there, and write the text.
    WriteFile(StorePath, String),
    /// Remove the file.
    RemoveFile(StorePath),
    /// Remove the directory and everything below it.
    RemoveDirAll(StorePath),
}

/// What an `Action` stands for.
pub enum Effect {
    EnsureDir(Location),
    WriteFile(Location, Seq<char>),
    RemoveFile(Location),
    RemoveDirAll(Location),
}

impl View for Action {
    type V = Effect;

    open spec fn view(&self) -> Effect {
        match self {
            Action::EnsureDir(dir) => Effect::EnsureDir(dir@),
            Action::WriteFile(file, text) => Effect::WriteFile(file@, text@),
            Action::RemoveFile(file) => Effect::RemoveFile(file@),
            Action::RemoveDirAll(dir) => Effect::RemoveDirAll(dir@),
        }
    }
}

/// What the failure of an action means to the operation that asked for it.
#[derive(Clone, Copy, Debug, PartialEq, Eq, Structural)]
pub enum Policy {
    /// The operation ends with an error of this kind.
    Abort(FailureKind),
    /// The operation goes on.
    Ignore,
}

/// An action, and what its failure means.
#[derive(Debug, PartialEq, Eq)]
pub struct Step {
    pub action: Action,
    pub policy: Policy,
}

/// What a `Step` stands for.
pub struct StepView {
    pub effect: Effect,
    pub policy: Policy,
}

impl View for Step {
    type V = StepView;

    open spec fn view(&self) -> StepView {
        StepView { effect: self.action@, policy: self.policy }
    }
}

impl DeepView for Step {
    type V = StepView;

    open spec fn deep_view(&self) -> StepView {
        self@
    }
}

impl Step {
    /// What the operation returns once the caller has tried this step:
    /// nothing if the action succeeded or its failure is ignored, else the
    /// error of the step's kind with the caller's message.
    pub fn settle(&self, outcome: Result<(), String>) -> (result: Result<(), NoteError>)
        ensures
            match (outcome, self.policy) {
                (Err(message), Policy::Abort(kind)) => result matches Err(error) && error.is_failure(
                    kind,
                    message@,
                ),
                _ => result is Ok,
            },
    {
        match outcome {
            Ok(()) => Ok(()),
            Err(message) => match self.policy {
                Policy::Abort(kind) => Err(NoteError::new(kind, message)),
                Policy::Ignore => Ok(()),
            },
        }
    }
}

/// Puts the steps of `more` behind those of `steps`.
pub fn push_all(steps: &mut Vec<Step>, more: Vec<Step>)
    ensures
        final(steps).deep_view() == old(steps).deep_view() + more.deep_view(),
{
    let mut more = more;
    let ghost before = steps.deep_view();
    let ghost added = more.deep_view();
    steps.append(&mut more);
    assert(steps.deep_view() =~= before + added);
}

/// The directories and files of a volume.
pub struct Volume {
    pub dirs: Set<Location>,
    pub files: Map<Location, Seq<char>>,
}

impl Volume {
    /// Whether the file `file` is there and holds `text`.
    pub open spec fn holds(self, file: Location, text: Seq<char>) -> bool {
        self.files.contains_key(file) && self.files[file] == text
    }

    /// Whether the file `file` is the same here as in `other`: there in
    /// both with one text, or in neither.
    pub open spec fn agrees(self, other: Volume, file: Location) -> bool {
        self.files.contains_key(file) == other.files.contains_key(file) && (
        self.files.contains_key(file) ==> self.files[file] == other.files[file])
    }
}

impl Effect {
    /// The volume after this operation has succeeded on `volume`.
    pub open spec fn apply(self, volume: Volume) -> Volume {
        match self {
            Effect::EnsureDir(dir) => Volume {
                dirs: volume.dirs.union(Set::new(|above: Location| dir.within(above))),
                files: volume.files,
            },
            Effect::WriteFile(file, text) => Volume {
                dirs: volume.dirs,
                files: volume.files.insert(file, text),
            },
            Effect::RemoveFile(file) => Volume {
                dirs: volume.dirs,
                files: volume.files.remove(file),
            },
            Effect::RemoveDirAll(dir) => Volume {
                dirs: volume.dirs.filter(|other: Location| !other.within(dir)),
                files: volume.files.restrict(Set::new(|file: Location| !file.within(dir))),
            },
        }
    }
}

/// The volume after every step of `steps` has succeeded in turn, starting from `volume`.
pub open spec fn carry_out(steps: Seq<StepView>, volume: Volume) -> Volume
    decreases steps.len(),
{
    if steps.len() == 0 {
        volume
    } else {
        steps.last().effect.apply(carry_out(steps.drop_last(), volume))
    }
}

} // verus!
