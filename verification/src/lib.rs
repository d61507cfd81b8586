//! Note persistence engine: records, their JSON form, and the file
//! operations that keep a directory of notes, its backups, imports and exports.

use vstd::prelude::*;

pub mod clock;
pub mod commands;
pub mod error;
pub mod ident;
pub mod json;
pub mod laws;
pub mod note;
pub mod record;
pub mod retention;
pub mod storage;
pub mod text;

verus! {

/// Name of the directory, directly under the storage root, that holds the live notes.
pub const NOTES_DIR: &'static str = ".notes";

/// Name of the directory, directly under the storage root, that holds the backup snapshots.
pub const BACKUP_DIR: &'static str = ".backup";

/// The storage root that every operation is given.
#[derive(Debug)]
pub struct AppState {
    pub app_dir: String,
}

impl AppState {
    /// An application state rooted at `app_dir`.
    pub fn new(app_dir: String) -> (state: AppState)
        ensures
            state.app_dir@ == app_dir@,
    {
        AppState { app_dir }
    }
}

} // verus!
