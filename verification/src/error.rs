//! Why an operation of the explorer was refused.

use vstd::prelude::*;

verus! {

/// The failures that scanning, deleting and restoring report.
#[derive(Debug, Clone, Copy, PartialEq, Eq, Structural)]
pub enum ExplorerError {
    /// The path does not exist.
    NotFound,
    /// The path exists and is not a directory.
    NotADirectory,
    /// The file name cannot be written as text.
    InvalidName,
    /// No copy could be made in the staging directory.
    StagingFailed,
    /// The file could not be moved to the trash.
    TrashFailed,
    /// The staged copy is no longer there.
    StagingMissing,
    /// The directory that held the file is gone.
    TargetDirGone,
    /// Something stands at the path where the file stood.
    TargetExists,
    /// Neither a move nor a copy brought the staged copy back, or the staged
    /// copy could not be removed after the copy.
    RestoreFailed,
    /// An operating-system directory was chosen.
    SystemDirectoryBlocked,
}

impl ExplorerError {
    /// The text that [`ExplorerError::message`] returns.
    pub open spec fn text(self) -> Seq<char> {
        match self {
            ExplorerError::NotFound => "Path does not exist"@,
            ExplorerError::NotADirectory => "Path is not a directory"@,
            ExplorerError::InvalidName => "Invalid file name"@,
            ExplorerError::StagingFailed => "Failed to copy file to staging"@,
            ExplorerError::TrashFailed => "Failed to move file to trash"@,
            ExplorerError::StagingMissing => "Staging file not found. Cannot restore."@,
            ExplorerError::TargetDirGone => "Original directory no longer exists"@,
            ExplorerError::TargetExists => "File already exists at original path. Cannot restore."@,
            ExplorerError::RestoreFailed => "Failed to restore file"@,
            ExplorerError::SystemDirectoryBlocked => "System directory blocked"@,
        }
    }

    /// A description of the failure for the user.
    pub fn message(&self) -> (message: String)
        ensures
            message@ == self.text(),
    {
        let text = match self {
            ExplorerError::NotFound => "Path does not exist",
            ExplorerError::NotADirectory => "Path is not a directory",
            ExplorerError::InvalidName => "Invalid file name",
            ExplorerError::StagingFailed => "Failed to copy file to staging",
            ExplorerError::TrashFailed => "Failed to move file to trash",
            ExplorerError::StagingMissing => "Staging file not found. Cannot restore.",
            ExplorerError::TargetDirGone => "Original directory no longer exists",
            ExplorerError::TargetExists => "File already exists at original path. Cannot restore.",
            ExplorerError::RestoreFailed => "Failed to restore file",
            ExplorerError::SystemDirectoryBlocked => "System directory blocked",
        };
        text.to_owned()
    }
}

} // verus!
