//! One row of a directory listing.

use vstd::prelude::*;

verus! {

/// A direct child of a scanned directory.
#[derive(Debug)]
pub struct FileEntry {
    /// Absolute path of the entry.
    pub path: String,
    /// Name shown for the entry.
    pub name: String,
    /// Size in bytes; for a directory, the sum of the sizes of the files
    /// below it, hidden entries left out.
    pub size: u64,
    pub is_dir: bool,
    /// Extension of a file name; `None` for directories and for names
    /// without one.
    pub extension: Option<String>,
}

/// The mathematical value of a [`FileEntry`].
pub struct FileEntryView {
    pub path: Seq<char>,
    pub name: Seq<char>,
    pub size: u64,
    pub is_dir: bool,
    pub extension: Option<Seq<char>>,
}

impl View for FileEntry {
    type V = FileEntryView;

    open spec fn view(&self) -> FileEntryView {
        FileEntryView {
            path: self.path@,
            name: self.name@,
            size: self.size,
            is_dir: self.is_dir,
            extension: match self.extension {
                Some(ext) => Some(ext@),
                None => None,
            },
        }
    }
}

impl FileEntry {
    pub fn new(
        path: String,
        name: String,
        size: u64,
        is_dir: bool,
        extension: Option<String>,
    ) -> (entry: Self)
        ensures
            entry == (FileEntry { path, name, size, is_dir, extension }),
    {
        Self { path, name, size, is_dir, extension }
    }
}

impl Clone for FileEntry {
    fn clone(&self) -> (copy: Self)
        ensures
            copy == *self,
    {
        FileEntry {
            path: self.path.clone(),
            name: self.name.clone(),
            size: self.size,
            is_dir: self.is_dir,
            extension: match &self.extension {
                Some(ext) => Some(ext.clone()),
                None => None,
            },
        }
    }
}

} // verus!
