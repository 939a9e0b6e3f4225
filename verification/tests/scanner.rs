use file_explorer::{
    ChildReading, ChildStep, DirectoryScan, EntryMetadata, ExplorerError, FileEntry, ScanProgress,
    WalkEntry, WalkStep,
};

const DIR: EntryMetadata = EntryMetadata { is_dir: true, is_file: false, len: 4096 };

fn file_of(len: u64) -> EntryMetadata {
    EntryMetadata { is_dir: false, is_file: true, len }
}

fn child(name: &str, metadata: Option<EntryMetadata>) -> Option<ChildReading> {
    Some(ChildReading {
        path: format!("/scan/{}", name),
        name: name.to_string(),
        metadata,
    })
}

fn met(depth: usize, name: &str, metadata: EntryMetadata) -> Option<WalkEntry> {
    Some(WalkEntry {
        depth,
        name: name.to_string(),
        is_dir: metadata.is_dir,
        metadata: Some(metadata),
    })
}

fn quiet() -> WalkStep {
    WalkStep { prune: false, progress: None }
}

fn begin() -> DirectoryScan {
    DirectoryScan::begin(Some(DIR)).unwrap()
}

fn names(listing: &[FileEntry]) -> Vec<String> {
    let mut names = Vec::new();
    for entry in listing {
        names.push(entry.name.clone());
    }
    names
}

#[test]
fn a_scan_of_nothing_is_not_found() {
    assert_eq!(DirectoryScan::begin(None).unwrap_err(), ExplorerError::NotFound);
}

#[test]
fn a_scan_of_a_file_is_not_a_directory() {
    assert_eq!(
        DirectoryScan::begin(Some(file_of(12))).unwrap_err(),
        ExplorerError::NotADirectory
    );
    let neither = EntryMetadata { is_dir: false, is_file: false, len: 0 };
    assert_eq!(DirectoryScan::begin(Some(neither)).unwrap_err(), ExplorerError::NotADirectory);
}

#[test]
fn an_empty_directory_lists_nothing() {
    let scan = begin();
    assert_eq!(scan.progress(), ScanProgress { files_scanned: 0, total_bytes: 0 });
    assert!(scan.finish().is_empty());
}

#[test]
fn one_file_one_hidden_file_and_one_subdirectory() {
    let mut scan = begin();
    assert_eq!(scan.visit_child(child("a.txt", Some(file_of(10)))), ChildStep::Listed);
    assert_eq!(scan.visit_child(child(".secret", Some(file_of(5)))), ChildStep::Skipped);
    assert_eq!(scan.visit_child(child("sub", Some(DIR))), ChildStep::Descend);
    assert_eq!(scan.visit_descendant(met(0, "sub", DIR)), quiet());
    assert_eq!(scan.visit_descendant(met(1, "b.txt", file_of(20))), quiet());

    let listing = scan.finish();
    assert_eq!(listing.len(), 2);

    assert_eq!(listing[0].name, "sub");
    assert_eq!(listing[0].path, "/scan/sub");
    assert!(listing[0].is_dir);
    assert_eq!(listing[0].size, 20);
    assert_eq!(listing[0].extension, None);

    assert_eq!(listing[1].name, "a.txt");
    assert_eq!(listing[1].path, "/scan/a.txt");
    assert!(!listing[1].is_dir);
    assert_eq!(listing[1].size, 10);
    assert_eq!(listing[1].extension, Some("txt".to_string()));
}

#[test]
fn children_that_cannot_be_read_are_skipped() {
    let mut scan = begin();
    assert_eq!(scan.visit_child(None), ChildStep::Skipped);
    assert_eq!(scan.visit_child(child("locked", None)), ChildStep::Skipped);
    assert_eq!(scan.visit_child(child(".locked", None)), ChildStep::Skipped);
    assert!(scan.finish().is_empty());
}

#[test]
fn hidden_children_are_skipped_whatever_they_are() {
    let mut scan = begin();
    assert_eq!(scan.visit_child(child(".git", Some(DIR))), ChildStep::Skipped);
    assert_eq!(scan.visit_child(child(".profile", Some(file_of(99)))), ChildStep::Skipped);
    assert_eq!(scan.visit_descendant(met(0, ".git", DIR)), quiet());
    assert_eq!(scan.visit_descendant(met(1, "config", file_of(100))), quiet());
    assert_eq!(scan.progress(), ScanProgress { files_scanned: 0, total_bytes: 0 });
    assert!(scan.finish().is_empty());
}

#[test]
fn a_file_is_listed_with_its_length_and_extension() {
    let mut scan = begin();
    scan.visit_child(child("archive.tar.gz", Some(file_of(2048))));
    scan.visit_child(child("README", Some(file_of(7))));
    scan.visit_child(child("trailing.", Some(file_of(0))));
    let symlink = EntryMetadata { is_dir: false, is_file: false, len: 11 };
    scan.visit_child(child("link", Some(symlink)));
    let listing = scan.finish();
    assert_eq!(names(&listing), vec!["archive.tar.gz", "link", "README", "trailing."]);
    assert_eq!(listing[0].extension, Some("gz".to_string()));
    assert_eq!(listing[0].size, 2048);
    assert_eq!(listing[1].extension, None);
    assert_eq!(listing[1].size, 11);
    assert!(!listing[1].is_dir);
    assert_eq!(listing[2].extension, None);
    assert_eq!(listing[2].size, 7);
    assert_eq!(listing[3].extension, Some(String::new()));
    assert_eq!(listing[3].size, 0);
}

#[test]
fn a_directory_has_no_extension_and_not_its_own_length() {
    let mut scan = begin();
    assert_eq!(scan.visit_child(child("photos.old", Some(DIR))), ChildStep::Descend);
    let listing = scan.finish();
    assert_eq!(listing.len(), 1);
    assert!(listing[0].is_dir);
    assert_eq!(listing[0].size, 0);
    assert_eq!(listing[0].extension, None);
}

#[test]
fn the_size_of_a_directory_sums_files_at_every_depth() {
    let mut scan = begin();
    scan.visit_child(child("project", Some(DIR)));
    scan.visit_descendant(met(0, "project", DIR));
    scan.visit_descendant(met(1, "main.rs", file_of(300)));
    scan.visit_descendant(met(1, "src", DIR));
    scan.visit_descendant(met(2, "lib.rs", file_of(50)));
    scan.visit_descendant(met(2, "deep", DIR));
    scan.visit_descendant(met(3, "x.bin", file_of(7)));
    scan.visit_descendant(met(1, "notes.md", file_of(1)));
    assert_eq!(scan.progress(), ScanProgress { files_scanned: 4, total_bytes: 0 });
    let listing = scan.finish();
    assert_eq!(listing[0].size, 358);
}

#[test]
fn only_regular_files_with_metadata_count() {
    let mut scan = begin();
    scan.visit_child(child("mixed", Some(DIR)));
    scan.visit_descendant(met(0, "mixed", DIR));
    let symlink = EntryMetadata { is_dir: false, is_file: false, len: 500 };
    assert_eq!(scan.visit_descendant(met(1, "link", symlink)), quiet());
    assert_eq!(scan.visit_descendant(None), quiet());
    let unreadable =
        WalkEntry { depth: 1, name: "locked".to_string(), is_dir: false, metadata: None };
    assert_eq!(scan.visit_descendant(Some(unreadable)), quiet());
    assert_eq!(scan.visit_descendant(met(1, "real", file_of(9))), quiet());
    assert_eq!(scan.progress(), ScanProgress { files_scanned: 1, total_bytes: 0 });
    assert_eq!(scan.finish()[0].size, 9);
}

#[test]
fn a_hidden_directory_is_pruned_and_adds_nothing() {
    let mut scan = begin();
    scan.visit_child(child("repo", Some(DIR)));
    scan.visit_descendant(met(0, "repo", DIR));
    scan.visit_descendant(met(1, "a", file_of(1)));
    assert_eq!(
        scan.visit_descendant(met(1, ".git", DIR)),
        WalkStep { prune: true, progress: None }
    );
    assert_eq!(scan.visit_descendant(met(2, "HEAD", file_of(1000))), quiet());
    assert_eq!(scan.visit_descendant(met(2, "objects", DIR)), quiet());
    assert_eq!(scan.visit_descendant(met(3, "pack", file_of(1_000_000))), quiet());
    assert_eq!(scan.visit_descendant(met(3, ".inner", DIR)), quiet());
    assert_eq!(scan.visit_descendant(met(1, "b", file_of(2))), quiet());
    assert_eq!(scan.visit_descendant(met(2, "HEAD", file_of(4))), quiet());
    assert_eq!(scan.progress(), ScanProgress { files_scanned: 3, total_bytes: 0 });
    assert_eq!(scan.finish()[0].size, 7);
}

#[test]
fn a_walk_with_and_without_a_hidden_subtree_ends_alike() {
    let mut met_it = begin();
    met_it.visit_child(child("d", Some(DIR)));
    met_it.visit_descendant(met(0, "d", DIR));
    met_it.visit_descendant(met(1, "one", file_of(10)));
    met_it.visit_descendant(met(1, ".cache", DIR));
    met_it.visit_descendant(met(2, "blob", file_of(777)));
    met_it.visit_descendant(None);
    met_it.visit_descendant(met(3, "deeper", file_of(888)));
    met_it.visit_descendant(met(1, "two", file_of(20)));
    met_it.visit_descendant(met(2, "three", file_of(30)));

    let mut spared = begin();
    spared.visit_child(child("d", Some(DIR)));
    spared.visit_descendant(met(0, "d", DIR));
    spared.visit_descendant(met(1, "one", file_of(10)));
    spared.visit_descendant(met(1, "two", file_of(20)));
    spared.visit_descendant(met(2, "three", file_of(30)));

    assert_eq!(met_it.progress(), spared.progress());
    let a = met_it.finish();
    let b = spared.finish();
    assert_eq!(a.len(), 1);
    assert_eq!(b.len(), 1);
    assert_eq!(a[0].size, 60);
    assert_eq!(b[0].size, 60);
}

#[test]
fn a_hidden_file_is_left_out_and_not_pruned() {
    let mut scan = begin();
    scan.visit_child(child("d", Some(DIR)));
    scan.visit_descendant(met(0, "d", DIR));
    assert_eq!(scan.visit_descendant(met(1, ".DS_Store", file_of(6148))), quiet());
    assert_eq!(scan.visit_descendant(met(1, "kept", file_of(3))), quiet());
    assert_eq!(scan.finish()[0].size, 3);
}

#[test]
fn entries_reported_outside_a_walk_change_nothing() {
    let mut scan = begin();
    assert_eq!(scan.visit_descendant(met(1, "stray", file_of(5))), quiet());
    scan.visit_child(child("a.txt", Some(file_of(10))));
    assert_eq!(scan.visit_descendant(met(1, "stray", file_of(5))), quiet());
    assert_eq!(
        scan.visit_descendant(met(1, ".stray", DIR)),
        WalkStep { prune: false, progress: None }
    );
    assert_eq!(scan.progress(), ScanProgress { files_scanned: 0, total_bytes: 0 });
    let listing = scan.finish();
    assert_eq!(listing.len(), 1);
    assert_eq!(listing[0].size, 10);
}

#[test]
fn the_next_child_ends_the_walk_of_the_one_before() {
    let mut scan = begin();
    scan.visit_child(child("first", Some(DIR)));
    scan.visit_descendant(met(1, "f", file_of(5)));
    scan.visit_descendant(met(1, ".hidden", DIR));
    scan.visit_child(child("second", Some(DIR)));
    scan.visit_descendant(met(2, "g", file_of(7)));
    scan.visit_child(child("skipped", None));
    scan.visit_descendant(met(1, "h", file_of(100)));
    let listing = scan.finish();
    assert_eq!(names(&listing), vec!["first", "second"]);
    assert_eq!(listing[0].size, 5);
    assert_eq!(listing[1].size, 7);
}

#[test]
fn progress_comes_with_every_hundredth_file_of_the_whole_scan() {
    let mut scan = begin();
    scan.visit_child(child("one", Some(DIR)));
    for n in 1..=99u64 {
        assert_eq!(scan.visit_descendant(met(1, "f", file_of(n))), quiet());
    }
    scan.visit_child(child("two", Some(DIR)));
    assert_eq!(
        scan.visit_descendant(met(1, "hundredth", file_of(1000))),
        WalkStep {
            prune: false,
            progress: Some(ScanProgress { files_scanned: 100, total_bytes: 1000 })
        }
    );
    assert_eq!(scan.visit_descendant(met(1, "next", file_of(5))), quiet());
    for _ in 102..=199u64 {
        assert_eq!(scan.visit_descendant(met(1, "f", file_of(1))), quiet());
    }
    assert_eq!(
        scan.visit_descendant(met(1, "two hundredth", file_of(30))),
        WalkStep {
            prune: false,
            progress: Some(ScanProgress { files_scanned: 200, total_bytes: 1030 })
        }
    );
    assert_eq!(scan.progress(), ScanProgress { files_scanned: 200, total_bytes: 1030 });
    let listing = scan.finish();
    assert_eq!(listing[0].size, 4950);
    assert_eq!(listing[1].size, 1000 + 5 + 98 + 30);
}

#[test]
fn listed_files_do_not_count_as_scanned() {
    let mut scan = begin();
    for n in 0..150u64 {
        assert_eq!(scan.visit_child(child("file", Some(file_of(n)))), ChildStep::Listed);
    }
    assert_eq!(scan.progress(), ScanProgress { files_scanned: 0, total_bytes: 0 });
    assert_eq!(scan.finish().len(), 150);
}

#[test]
fn the_scan_admits_what_fits_in_64_bits() {
    let mut scan = begin();
    let big = met(1, "big", file_of(u64::MAX - 10));
    assert!(scan.admits(&big));
    scan.visit_child(child("d", Some(DIR)));
    assert!(scan.admits(&big));
    scan.visit_descendant(big);
    assert!(scan.admits(&met(1, "fits", file_of(10))));
    assert!(!scan.admits(&met(1, "too much", file_of(11))));
    assert!(scan.admits(&met(1, ".hidden", file_of(11))));
    assert!(scan.admits(&None));
    assert!(scan.admits(&met(1, "dir", DIR)));
    scan.visit_descendant(met(1, ".hidden", DIR));
    assert!(scan.admits(&met(2, "passed over", file_of(u64::MAX))));
    assert!(!scan.admits(&met(1, "looked at", file_of(u64::MAX))));
}

#[test]
fn the_listing_puts_directories_first_and_sorts_names_without_case() {
    let mut scan = begin();
    scan.visit_child(child("zeta.txt", Some(file_of(1))));
    scan.visit_child(child("Beta", Some(DIR)));
    scan.visit_child(child("alpha.txt", Some(file_of(2))));
    scan.visit_child(child("Gamma.txt", Some(file_of(3))));
    scan.visit_child(child("alpha", Some(DIR)));
    scan.visit_child(child("Zed", Some(DIR)));
    let listing = scan.finish();
    assert_eq!(
        names(&listing),
        vec!["alpha", "Beta", "Zed", "alpha.txt", "Gamma.txt", "zeta.txt"]
    );
    let mut seen_file = false;
    for entry in &listing {
        if entry.is_dir {
            assert!(!seen_file);
        } else {
            seen_file = true;
        }
    }
}
