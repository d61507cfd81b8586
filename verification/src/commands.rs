//! The operations of the engine. Each one says which file operations are to
//! be performed; the caller performs them and reports how they went.

pub mod backup_notes;
pub mod delete_note;
pub mod edit_note;
pub mod export_notes;
pub mod get_all_notes;
pub mod import_notes;
pub mod new_note;
pub mod sync_local_notes;
