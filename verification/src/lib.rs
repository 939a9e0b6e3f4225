//! Verified core of a directory explorer with reversible deletes.
//!
//! The crate holds the rules of three things and leaves every file
//! operation to its caller:
//!
//! - [`classifier`]: which directories belong to the operating system and
//!   which names are hidden;
//! - [`scanner`]: the listing of a directory, with the sizes of its
//!   subdirectories summed over their subtrees and progress reported on the
//!   way, sorted by [`listing`]; [`totals`] states what a scan adds up to;
//! - [`trash`] and [`undo_action`]: deletes that stage a copy first, the
//!   bounded history that lets them be undone, and the session's counters.

pub mod classifier;
pub mod error;
pub mod file_entry;
pub mod listing;
pub mod ranking;
pub mod scanner;
pub mod text;
pub mod totals;
pub mod trash;
pub mod undo_action;

pub use classifier::{accept_selection, is_hidden, is_system_directory, Platform};
pub use error::ExplorerError;
pub use file_entry::FileEntry;
pub use listing::sort_entries;
pub use scanner::{
    ChildReading, ChildStep, DirectoryScan, EntryMetadata, ScanProgress, WalkEntry, WalkStep,
};
pub use trash::{
    begin_undo, generate_staging_name, plan_delete, staging_dir_name, ActiveRestore,
    PendingDelete, PendingRestore, RestoreProbe, RestoreStep, StagedDelete,
};
pub use undo_action::{TrashAction, UndoStack};
