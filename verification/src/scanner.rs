//! Scanning a directory: which children are listed, how the size of a
//! subdirectory adds up while its subtree is walked, and when progress is
//! reported.
//!
//! Reading the file system is left to the caller. It reports what it reads,
//! child by child and, below a child that is a directory, entry by entry in
//! the order of a walk that yields a directory before its contents. The scan
//! answers each report with what to do next.

use vstd::prelude::*;
use crate::classifier::{is_hidden, spec_is_hidden};
use crate::error::ExplorerError;
use crate::file_entry::{FileEntry, FileEntryView};
use crate::listing::{
    entry_views, is_arranged, is_sorted_listing, listing_keys, sort_entries,
};
use crate::ranking::is_stable_order;
use crate::text::{file_extension, spec_extension};

verus! {

/// After how many files, counted over the whole scan, progress is reported.
pub const PROGRESS_INTERVAL: u64 = 100;

/// What the file system tells of an entry.
#[derive(Debug, Clone, Copy, PartialEq, Eq, Structural)]
pub struct EntryMetadata {
    pub is_dir: bool,
    /// Whether the entry is a regular file.
    pub is_file: bool,
    /// Length in bytes.
    pub len: u64,
}

/// A direct child of the scanned directory, as read.
#[derive(Debug)]
pub struct ChildReading {
    pub path: String,
    pub name: String,
    /// `None` where the metadata could not be read.
    pub metadata: Option<EntryMetadata>,
}

/// An entry met while walking below a child directory.
#[derive(Debug)]
pub struct WalkEntry {
    /// Depth below the directory that is walked, which itself has depth 0.
    pub depth: usize,
    pub name: String,
    /// Whether the walk would descend into the entry.
    pub is_dir: bool,
    /// `None` where the metadata could not be read.
    pub metadata: Option<EntryMetadata>,
}

/// The counters of a scan, which are also what a progress notification holds.
#[derive(Debug, Clone, Copy, PartialEq, Eq, Structural)]
pub struct ScanProgress {
    /// Files counted so far, over all subdirectories.
    pub files_scanned: u64,
    /// Sum of the lengths of the files on which progress was reported. This
    /// is a coarse figure, not the sum over all files counted.
    pub total_bytes: u64,
}

/// What became of a child.
#[derive(Debug, Clone, Copy, PartialEq, Eq, Structural)]
pub enum ChildStep {
    /// The child is left out of the listing.
    Skipped,
    /// The child is listed with the size that was read.
    Listed,
    /// The child is a directory and is listed; its subtree is to be walked
    /// and reported entry by entry.
    Descend,
}

/// What to do after an entry of a walk.
#[derive(Debug, Clone, Copy, PartialEq, Eq)]
pub struct WalkStep {
    /// The walk must not descend into the entry just reported.
    pub prune: bool,
    /// A progress notification to send.
    pub progress: Option<ScanProgress>,
}

/// The mathematical value of a [`DirectoryScan`].
#[verifier::ext_equal]
pub struct ScanView {
    /// The entries listed so far, in the order in which they were reported.
    pub listed: Seq<FileEntryView>,
    /// Whether the subtree of the last listed entry is being walked.
    pub walking: bool,
    /// While walking: the depth of the hidden entry whose subtree is being
    /// passed over.
    pub pruned_below: Option<usize>,
    pub progress: ScanProgress,
}

/// What a listing may hold: no hidden name, and an extension on files only,
/// which is that of the name.
pub open spec fn is_listable(entry: FileEntryView) -> bool {
    &&& !spec_is_hidden(entry.name)
    &&& entry.extension == if entry.is_dir {
        None
    } else {
        spec_extension(entry.name)
    }
}

/// What becomes of a child: one that could not be read, is hidden, or has no
/// readable metadata is skipped.
pub open spec fn child_step(child: Option<ChildReading>) -> ChildStep {
    match child {
        None => ChildStep::Skipped,
        Some(c) => match c.metadata {
            None => ChildStep::Skipped,
            Some(m) => if spec_is_hidden(c.name@) {
                ChildStep::Skipped
            } else if m.is_dir {
                ChildStep::Descend
            } else {
                ChildStep::Listed
            },
        },
    }
}

/// The entry under which a child is listed. A directory starts with size 0.
pub open spec fn child_entry(child: ChildReading, metadata: EntryMetadata) -> FileEntryView {
    FileEntryView {
        path: child.path@,
        name: child.name@,
        size: if metadata.is_dir {
            0
        } else {
            metadata.len
        },
        is_dir: metadata.is_dir,
        extension: if metadata.is_dir {
            None
        } else {
            spec_extension(child.name@)
        },
    }
}

impl ScanView {
    /// A scan before any child was reported.
    pub open spec fn start() -> ScanView {
        ScanView {
            listed: Seq::empty(),
            walking: false,
            pruned_below: None,
            progress: ScanProgress { files_scanned: 0, total_bytes: 0 },
        }
    }

    /// What holds of every scan: each entry is one that a listing may hold,
    /// and a walk goes on below the last entry only, which is a directory.
    pub open spec fn well_formed(self) -> bool {
        &&& forall|i: int| 0 <= i < self.listed.len() ==> is_listable(#[trigger] self.listed[i])
        &&& self.walking ==> self.listed.len() > 0 && self.listed.last().is_dir
    }

    /// The scan after a child was reported. Any walk ends with it.
    pub open spec fn after_child(self, child: Option<ChildReading>) -> ScanView {
        let step = child_step(child);
        ScanView {
            listed: if step == ChildStep::Skipped {
                self.listed
            } else {
                self.listed.push(child_entry(child->0, child->0.metadata->0))
            },
            walking: step == ChildStep::Descend,
            pruned_below: None,
            progress: self.progress,
        }
    }

    /// The entry lies below a hidden entry that the walk has met.
    pub open spec fn passes_over(self, entry: WalkEntry) -> bool {
        self.pruned_below matches Some(depth) && entry.depth > depth
    }

    /// The report is looked at: a walk is under way, the entry could be read
    /// and does not lie below a hidden one.
    pub open spec fn regards(self, entry: Option<WalkEntry>) -> bool {
        &&& self.walking
        &&& entry matches Some(e)
        &&& !self.passes_over(e)
    }

    /// The entry adds to the size of the directory being walked: it is
    /// looked at, is not hidden, and is a regular file of known length.
    pub open spec fn counts(self, entry: Option<WalkEntry>) -> bool {
        &&& self.regards(entry)
        &&& !spec_is_hidden(entry->0.name@)
        &&& entry->0.metadata matches Some(m)
        &&& m.is_file
    }

    /// Counting the entry makes the number of files a multiple of
    /// [`PROGRESS_INTERVAL`].
    pub open spec fn reports_at(self, entry: Option<WalkEntry>) -> bool {
        self.counts(entry) && (self.progress.files_scanned + 1) % (PROGRESS_INTERVAL as int) == 0
    }

    /// The sums that the entry adds to stay within 64 bits.
    pub open spec fn admits(self, entry: Option<WalkEntry>) -> bool {
        let len = entry->0.metadata->0.len;
        &&& self.counts(entry) ==> {
            &&& self.listed.len() > 0
            &&& self.listed.last().size + len <= u64::MAX
            &&& self.progress.files_scanned + 1 <= u64::MAX
        }
        &&& self.reports_at(entry) ==> self.progress.total_bytes + len <= u64::MAX
    }

    /// The counters after an entry of a walk.
    pub open spec fn progress_after(self, entry: Option<WalkEntry>) -> ScanProgress {
        if self.counts(entry) {
            ScanProgress {
                files_scanned: (self.progress.files_scanned + 1) as u64,
                total_bytes: if self.reports_at(entry) {
                    (self.progress.total_bytes + entry->0.metadata->0.len) as u64
                } else {
                    self.progress.total_bytes
                },
            }
        } else {
            self.progress
        }
    }

    /// The answer to an entry of a walk: a hidden directory is pruned, and
    /// every [`PROGRESS_INTERVAL`]th file counted brings a notification.
    pub open spec fn walk_step(self, entry: Option<WalkEntry>) -> WalkStep {
        WalkStep {
            prune: self.regards(entry) && spec_is_hidden(entry->0.name@) && entry->0.is_dir,
            progress: if self.reports_at(entry) {
                Some(self.progress_after(entry))
            } else {
                None
            },
        }
    }

    /// The scan after an entry of a walk was reported.
    pub open spec fn after_descendant(self, entry: Option<WalkEntry>) -> ScanView {
        if !self.regards(entry) {
            self
        } else {
            let last = self.listed.len() - 1;
            ScanView {
                listed: if self.counts(entry) {
                    self.listed.update(
                        last,
                        FileEntryView {
                            size: (self.listed[last].size + entry->0.metadata->0.len) as u64,
                            ..self.listed[last]
                        },
                    )
                } else {
                    self.listed
                },
                walking: true,
                pruned_below: if spec_is_hidden(entry->0.name@) {
                    Some(entry->0.depth)
                } else {
                    None
                },
                progress: self.progress_after(entry),
            }
        }
    }

    /// The scan after a run of entries of a walk.
    pub open spec fn after_walk(self, entries: Seq<Option<WalkEntry>>) -> ScanView
        decreases entries.len(),
    {
        if entries.len() == 0 {
            self
        } else {
            self.after_walk(entries.drop_last()).after_descendant(entries.last())
        }
    }
}

/// A directory whose subtree is being walked.
#[derive(Debug)]
struct OpenDirectory {
    entry: FileEntry,
    pruned_below: Option<usize>,
}

/// A scan of one directory in progress.
#[derive(Debug)]
pub struct DirectoryScan {
    closed: Vec<FileEntry>,
    open: Option<OpenDirectory>,
    progress: ScanProgress,
}

impl View for DirectoryScan {
    type V = ScanView;

    closed spec fn view(&self) -> ScanView {
        match self.open {
            Some(dir) => ScanView {
                listed: entry_views(self.closed@).push(dir.entry@),
                walking: true,
                pruned_below: dir.pruned_below,
                progress: self.progress,
            },
            None => ScanView {
                listed: entry_views(self.closed@),
                walking: false,
                pruned_below: None,
                progress: self.progress,
            },
        }
    }
}

impl DirectoryScan {
    /// Starts the scan of a directory, given what the file system tells of
    /// the path: `None` where nothing is there.
    pub fn begin(root: Option<EntryMetadata>) -> (scan: Result<DirectoryScan, ExplorerError>)
        ensures
            match root {
                None => scan == Err::<DirectoryScan, ExplorerError>(ExplorerError::NotFound),
                Some(m) => if m.is_dir {
                    scan is Ok && scan->Ok_0@ == ScanView::start()
                } else {
                    scan == Err::<DirectoryScan, ExplorerError>(ExplorerError::NotADirectory)
                },
            },
    {
        match root {
            None => Err(ExplorerError::NotFound),
            Some(m) => {
                if m.is_dir {
                    let scan = DirectoryScan {
                        closed: Vec::new(),
                        open: None,
                        progress: ScanProgress { files_scanned: 0, total_bytes: 0 },
                    };
                    assert(scan@ =~= ScanView::start());
                    Ok(scan)
                } else {
                    Err(ExplorerError::NotADirectory)
                }
            },
        }
    }

    /// The counters of the scan.
    pub fn progress(&self) -> (progress: ScanProgress)
        ensures
            progress == self@.progress,
    {
        self.progress
    }

    /// Ends the walk that is under way, if any.
    fn close_directory(&mut self)
        ensures
            final(self)@ == (ScanView { walking: false, pruned_below: None, ..old(self)@ }),
            final(self).open is None,
    {
        let ghost before = self@;
        match self.open.take() {
            Some(dir) => {
                self.closed.push(dir.entry);
            },
            None => {},
        }
        assert(self@.listed =~= before.listed);
    }

    /// Takes the report of a direct child; `None` stands for a child that
    /// could not be read. A walk that was under way ends.
    pub fn visit_child(&mut self, child: Option<ChildReading>) -> (step: ChildStep)
        ensures
            step == child_step(child),
            final(self)@ == old(self)@.after_child(child),
            old(self)@.well_formed() ==> final(self)@.well_formed(),
    {
        self.close_directory();
        let ghost before = self@;
        let step = match child {
            None => ChildStep::Skipped,
            Some(c) => match c.metadata {
                None => ChildStep::Skipped,
                Some(m) => {
                    if is_hidden(c.name.as_str()) {
                        ChildStep::Skipped
                    } else if m.is_dir {
                        let entry = FileEntry::new(c.path, c.name, 0, true, None);
                        self.open = Some(OpenDirectory { entry, pruned_below: None });
                        ChildStep::Descend
                    } else {
                        let extension = file_extension(c.name.as_str());
                        let entry = FileEntry::new(c.path, c.name, m.len, false, extension);
                        self.closed.push(entry);
                        ChildStep::Listed
                    }
                },
            },
        };
        assert(self@ =~= before.after_child(child));
        step
    }

    /// Tells whether [`DirectoryScan::visit_descendant`] can take the entry.
    pub fn admits(&self, entry: &Option<WalkEntry>) -> (admitted: bool)
        ensures
            admitted == self@.admits(*entry),
    {
        match (&self.open, entry) {
            (Some(dir), Some(e)) => {
                let passed_over = match dir.pruned_below {
                    Some(depth) => e.depth > depth,
                    None => false,
                };
                if passed_over || is_hidden(e.name.as_str()) {
                    true
                } else {
                    match e.metadata {
                        Some(m) => {
                            if m.is_file {
                                if self.progress.files_scanned == u64::MAX || dir.entry.size
                                    > u64::MAX - m.len {
                                    false
                                } else {
                                    (self.progress.files_scanned + 1) % PROGRESS_INTERVAL != 0
                                        || self.progress.total_bytes <= u64::MAX - m.len
                                }
                            } else {
                                true
                            }
                        },
                        None => true,
                    }
                }
            },
            _ => true,
        }
    }

    /// Takes the report of an entry met below the directory being walked;
    /// `None` stands for one that could not be read. The answer says whether
    /// the walk must keep out of the entry and whether progress is to be
    /// reported. A report that comes while no walk is under way changes
    /// nothing.
    pub fn visit_descendant(&mut self, entry: Option<WalkEntry>) -> (step: WalkStep)
        requires
            old(self)@.admits(entry),
        ensures
            step == old(self)@.walk_step(entry),
            final(self)@ == old(self)@.after_descendant(entry),
            old(self)@.well_formed() ==> final(self)@.well_formed(),
    {
        let ghost before = self@;
        let mut step = WalkStep { prune: false, progress: None };
        match entry {
            None => {},
            Some(e) => {
                match &mut self.open {
                    None => {},
                    Some(dir) => {
                        let passed_over = match dir.pruned_below {
                            Some(depth) => e.depth > depth,
                            None => false,
                        };
                        if !passed_over {
                            if is_hidden(e.name.as_str()) {
                                dir.pruned_below = Some(e.depth);
                                step.prune = e.is_dir;
                            } else {
                                dir.pruned_below = None;
                                let counted = match e.metadata {
                                    Some(m) => if m.is_file {
                                        Some(m.len)
                                    } else {
                                        None
                                    },
                                    None => None,
                                };
                                if let Some(len) = counted {
                                    dir.entry.size = dir.entry.size + len;
                                    let scanned = self.progress.files_scanned + 1;
                                    self.progress.files_scanned = scanned;
                                    if scanned % PROGRESS_INTERVAL == 0 {
                                        self.progress.total_bytes = self.progress.total_bytes + len;
                                        step.progress = Some(self.progress);
                                    }
                                }
                            }
                        }
                    },
                }
            },
        }
        assert(self@ =~= before.after_descendant(entry));
        step
    }

    /// Ends the scan and returns the listing: directories first, each group
    /// by lowercase name, entries that tie in the order in which they were
    /// reported.
    pub fn finish(self) -> (listing: Vec<FileEntry>)
        ensures
            is_sorted_listing(entry_views(listing@), self@.listed),
            self@.well_formed() ==> forall|i: int|
                0 <= i < listing.len() ==> is_listable(#[trigger] listing[i]@),
    {
        let mut scan = self;
        scan.close_directory();
        let ghost unsorted = entry_views(scan.closed@);
        let listing = sort_entries(scan.closed);
        proof {
            let sorted = entry_views(listing@);
            let order = choose|order: Seq<usize>|
                is_stable_order(order, listing_keys(unsorted)) && is_arranged(
                    sorted,
                    unsorted,
                    order,
                );
            if self@.well_formed() {
                assert forall|i: int| 0 <= i < listing.len() implies is_listable(
                    #[trigger] listing[i]@,
                ) by {
                    assert(sorted[i] == unsorted[order[i] as int]);
                    assert(is_listable(self@.listed[order[i] as int]));
                }
            }
        }
        listing
    }
}

/// A report of a child keeps a scan well formed.
pub proof fn lemma_child_keeps_well_formed(scan: ScanView, child: Option<ChildReading>)
    requires
        scan.well_formed(),
    ensures
        scan.after_child(child).well_formed(),
{
}

/// A report of an entry of a walk keeps a scan well formed.
pub proof fn lemma_descendant_keeps_well_formed(scan: ScanView, entry: Option<WalkEntry>)
    requires
        scan.well_formed(),
    ensures
        scan.after_descendant(entry).well_formed(),
{
}

/// A hidden child is never listed.
pub proof fn lemma_hidden_child_is_left_out(scan: ScanView, child: ChildReading)
    requires
        spec_is_hidden(child.name@),
    ensures
        child_step(Some(child)) == ChildStep::Skipped,
        scan.after_child(Some(child)).listed == scan.listed,
{
}

} // verus!
