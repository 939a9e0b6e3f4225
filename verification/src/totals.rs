//! What a scan adds up to.
//!
//! The scan reckons step by step, report by report. Here its outcome is
//! stated over all that is reported: the size of a directory is the sum of
//! the lengths of the files in its subtree that no hidden entry hides, and
//! the listing holds one entry for each child that could be read and is not
//! hidden. The reckoning of the scan is shown to reach just that.
//!
//! A walk is the sequence of the reports that the scan gets of one subtree,
//! each directory before its contents.

use vstd::prelude::*;
use crate::classifier::spec_is_hidden;
use crate::file_entry::FileEntryView;
use crate::scanner::{
    child_entry, child_step, is_listable, ChildReading, ChildStep, ScanView, WalkEntry,
    PROGRESS_INTERVAL,
};

verus! {

/// Every entry that `entries` holds lies deeper than `depth`; entries that
/// could not be read are of no account.
pub open spec fn all_below(entries: Seq<Option<WalkEntry>>, depth: usize) -> bool {
    forall|i: int|
        0 <= i < entries.len() ==> ((#[trigger] entries[i]) matches Some(e) ==> e.depth > depth)
}

/// Reporting two runs of entries one after the other is reporting their
/// concatenation.
pub proof fn lemma_walk_splits(
    scan: ScanView,
    first: Seq<Option<WalkEntry>>,
    second: Seq<Option<WalkEntry>>,
)
    ensures
        scan.after_walk(first + second) == scan.after_walk(first).after_walk(second),
    decreases second.len(),
{
    if second.len() == 0 {
        assert(first + second =~= first);
    } else {
        lemma_walk_splits(scan, first, second.drop_last());
        assert((first + second).drop_last() =~= first + second.drop_last());
    }
}

/// Reporting a single entry.
pub proof fn lemma_walk_of_one(scan: ScanView, entry: Option<WalkEntry>)
    ensures
        scan.after_walk(seq![entry]) == scan.after_descendant(entry),
{
    assert(seq![entry].drop_last() =~= Seq::<Option<WalkEntry>>::empty());
    assert(scan.after_walk(seq![entry].drop_last()) == scan);
}

/// Entries that lie below the hidden entry being passed over, or that come
/// while no walk is under way, change nothing.
pub proof fn lemma_passed_over_entries_change_nothing(
    scan: ScanView,
    entries: Seq<Option<WalkEntry>>,
)
    requires
        !scan.walking || (scan.pruned_below is Some && all_below(
            entries,
            scan.pruned_below->0,
        )),
    ensures
        scan.after_walk(entries) == scan,
    decreases entries.len(),
{
    if entries.len() > 0 {
        lemma_passed_over_entries_change_nothing(scan, entries.drop_last());
        assert(!scan.regards(entries.last()));
    }
}

/// A hidden entry and all that lies below it count for nothing: a walk that
/// meets them ends with the same listing and the same counters as a walk from
/// which they are taken out. `below` holds what the walk reports of the
/// subtree of the hidden entry, and `after`, where it is not empty, starts
/// with the first entry that the walk reads outside that subtree.
pub proof fn lemma_hidden_subtree_adds_nothing(
    scan: ScanView,
    before: Seq<Option<WalkEntry>>,
    hidden: WalkEntry,
    below: Seq<Option<WalkEntry>>,
    after: Seq<Option<WalkEntry>>,
)
    requires
        spec_is_hidden(hidden.name@),
        all_below(below, hidden.depth),
        after.len() > 0 ==> (after[0] matches Some(e) && e.depth <= hidden.depth),
    ensures
        ({
            let met = scan.after_walk(before + seq![Some(hidden)] + below + after);
            let spared = scan.after_walk(before + after);
            &&& met.listed == spared.listed
            &&& met.progress == spared.progress
            &&& met.walking == spared.walking
            &&& after.len() > 0 ==> met == spared
        }),
{
    let reached = scan.after_walk(before);
    let at_hidden = reached.after_descendant(Some(hidden));
    lemma_walk_splits(scan, before, seq![Some(hidden)]);
    lemma_walk_of_one(reached, Some(hidden));
    lemma_walk_splits(scan, before + seq![Some(hidden)], below);
    lemma_walk_splits(scan, before + seq![Some(hidden)] + below, after);
    lemma_walk_splits(scan, before, after);
    if reached.regards(Some(hidden)) {
        lemma_passed_over_entries_change_nothing(at_hidden, below);
        if after.len() > 0 {
            let next = after[0];
            let rest = after.skip(1);
            assert(after =~= seq![next] + rest);
            lemma_walk_splits(at_hidden, seq![next], rest);
            lemma_walk_splits(reached, seq![next], rest);
            lemma_walk_of_one(at_hidden, next);
            lemma_walk_of_one(reached, next);
            assert(at_hidden.after_descendant(next) =~= reached.after_descendant(next));
        } else {
            assert(at_hidden.after_walk(after) == at_hidden);
            assert(reached.after_walk(after) == reached);
        }
    } else {
        assert(at_hidden == reached);
        if reached.walking {
            assert(all_below(below, reached.pruned_below->0)) by {
                assert forall|i: int| 0 <= i < below.len() implies ((
                #[trigger] below[i]) matches Some(e) ==> e.depth > reached.pruned_below->0) by {}
            }
        }
        lemma_passed_over_entries_change_nothing(reached, below);
    }
}

/// The entry at place `above` is hidden, and all that the walk read after it
/// and before place `end` lies deeper than it: the walk has not left its
/// subtree.
pub open spec fn hides_until(entries: Seq<Option<WalkEntry>>, above: int, end: int) -> bool {
    &&& 0 <= above < end <= entries.len()
    &&& entries[above] matches Some(hidden)
    &&& spec_is_hidden(hidden.name@)
    &&& forall|k: int|
        above < k < end ==> ((#[trigger] entries[k]) matches Some(e) ==> e.depth > hidden.depth)
}

/// The entry at place `at` lies in the subtree of a hidden entry.
pub open spec fn lies_below_hidden(entries: Seq<Option<WalkEntry>>, at: int) -> bool {
    exists|above: int| #[trigger] hides_until(entries, above, at + 1) && above < at
}

/// The entry at place `at` is a file that counts: it could be read, is a
/// regular file, is not hidden and does not lie below a hidden entry.
pub open spec fn is_visible_file(entries: Seq<Option<WalkEntry>>, at: int) -> bool {
    &&& 0 <= at < entries.len()
    &&& entries[at] matches Some(e)
    &&& e.metadata matches Some(m)
    &&& m.is_file
    &&& !spec_is_hidden(e.name@)
    &&& !lies_below_hidden(entries, at)
}

/// The sum of the lengths of the visible files among the first `upto`
/// entries.
pub open spec fn visible_bytes(entries: Seq<Option<WalkEntry>>, upto: int) -> int
    decreases upto,
{
    if upto <= 0 {
        0
    } else {
        visible_bytes(entries, upto - 1) + if is_visible_file(entries, upto - 1) {
            entries[upto - 1]->0.metadata->0.len as int
        } else {
            0
        }
    }
}

/// The number of the visible files among the first `upto` entries.
pub open spec fn visible_files(entries: Seq<Option<WalkEntry>>, upto: int) -> int
    decreases upto,
{
    if upto <= 0 {
        0
    } else {
        visible_files(entries, upto - 1) + if is_visible_file(entries, upto - 1) {
            1int
        } else {
            0
        }
    }
}

/// The entry at place `at` is a visible file at which progress is reported:
/// with it, the number of files scanned, which stood at `scanned_before` when
/// the walk began, becomes a multiple of [`PROGRESS_INTERVAL`].
pub open spec fn is_reported_file(
    scanned_before: int,
    entries: Seq<Option<WalkEntry>>,
    at: int,
) -> bool {
    is_visible_file(entries, at) && (scanned_before + visible_files(entries, at + 1)) % (
    PROGRESS_INTERVAL as int) == 0
}

/// The sum of the lengths of the files, among the first `upto` entries, at
/// which progress is reported.
pub open spec fn reported_bytes(
    scanned_before: int,
    entries: Seq<Option<WalkEntry>>,
    upto: int,
) -> int
    decreases upto,
{
    if upto <= 0 {
        0
    } else {
        reported_bytes(scanned_before, entries, upto - 1) + if is_reported_file(
            scanned_before,
            entries,
            upto - 1,
        ) {
            entries[upto - 1]->0.metadata->0.len as int
        } else {
            0
        }
    }
}

/// The sums only grow along a walk.
pub proof fn lemma_visible_sums_grow(entries: Seq<Option<WalkEntry>>, shorter: int, longer: int)
    requires
        shorter <= longer,
    ensures
        0 <= visible_bytes(entries, shorter) <= visible_bytes(entries, longer),
        0 <= visible_files(entries, shorter) <= visible_files(entries, longer),
    decreases longer - shorter, longer,
{
    if shorter < longer {
        lemma_visible_sums_grow(entries, shorter, longer - 1);
    } else if shorter > 0 {
        lemma_visible_sums_grow(entries, shorter - 1, longer - 1);
    }
}

/// The bytes reported only grow along a walk.
pub proof fn lemma_reported_bytes_grow(
    scanned_before: int,
    entries: Seq<Option<WalkEntry>>,
    shorter: int,
    longer: int,
)
    requires
        shorter <= longer,
    ensures
        0 <= reported_bytes(scanned_before, entries, shorter) <= reported_bytes(
            scanned_before,
            entries,
            longer,
        ),
    decreases longer - shorter, longer,
{
    if shorter < longer {
        lemma_reported_bytes_grow(scanned_before, entries, shorter, longer - 1);
    } else if shorter > 0 {
        lemma_reported_bytes_grow(scanned_before, entries, shorter - 1, longer - 1);
    }
}

/// A hidden entry and everything below it add nothing: no entry that is
/// hidden or lies in the subtree of a hidden one is a visible file.
pub proof fn lemma_hidden_entries_are_not_visible(
    entries: Seq<Option<WalkEntry>>,
    above: int,
    at: int,
)
    requires
        hides_until(entries, above, at + 1),
    ensures
        !is_visible_file(entries, above),
        !is_visible_file(entries, at),
{
}

/// How the scan stands after the first `upto` entries of a walk that began
/// at `start`: it has changed the size of the directory and the number of
/// files alone, and it passes over exactly what lies below a hidden entry.
spec fn keeps_track(
    start: ScanView,
    entries: Seq<Option<WalkEntry>>,
    upto: int,
    reached: ScanView,
) -> bool {
    &&& reached.walking
    &&& reached.listed.len() == start.listed.len()
    &&& reached.listed == start.listed.update(
        start.listed.len() - 1,
        FileEntryView {
            size: (start.listed.last().size + visible_bytes(entries, upto)) as u64,
            ..start.listed.last()
        },
    )
    &&& reached.progress.files_scanned == start.progress.files_scanned + visible_files(
        entries,
        upto,
    )
    &&& start.progress.total_bytes + reported_bytes(
        start.progress.files_scanned as int,
        entries,
        upto,
    ) <= u64::MAX ==> reached.progress.total_bytes == start.progress.total_bytes
        + reported_bytes(start.progress.files_scanned as int, entries, upto)
    &&& reached.pruned_below matches Some(depth) ==> exists|above: int|
        #[trigger] hides_until(entries, above, upto) && entries[above]->0.depth == depth
    &&& forall|above: int| #[trigger]
        hides_until(entries, above, upto) ==> reached.pruned_below is Some
            && reached.pruned_below->0 <= entries[above]->0.depth
}

/// The reckoning of the scan keeps track of the walk.
proof fn lemma_scan_keeps_track(start: ScanView, entries: Seq<Option<WalkEntry>>, upto: int)
    requires
        start.walking,
        start.pruned_below is None,
        start.listed.len() > 0,
        0 <= upto <= entries.len(),
        start.listed.last().size + visible_bytes(entries, upto) <= u64::MAX,
        start.progress.files_scanned + visible_files(entries, upto) <= u64::MAX,
    ensures
        keeps_track(start, entries, upto, start.after_walk(entries.take(upto))),
    decreases upto,
{
    let reached = start.after_walk(entries.take(upto));
    if upto == 0 {
        assert(entries.take(0) =~= Seq::empty());
        assert(reached.listed =~= start.listed.update(
            start.listed.len() - 1,
            FileEntryView {
                size: (start.listed.last().size + visible_bytes(entries, upto)) as u64,
                ..start.listed.last()
            },
        ));
    } else {
        let at = upto - 1;
        lemma_visible_sums_grow(entries, at, upto);
        lemma_reported_bytes_grow(start.progress.files_scanned as int, entries, at, upto);
        lemma_scan_keeps_track(start, entries, at);
        let before = start.after_walk(entries.take(at));
        let entry = entries[at];
        assert(entries.take(upto).drop_last() =~= entries.take(at));
        assert(entries.take(upto).last() == entry);
        assert(reached == before.after_descendant(entry));
        assert(keeps_track(start, entries, at, before));

        // The scan passes over the entry just where a hidden entry lies above it.
        assert(entry is Some ==> (before.passes_over(entry->0) <==> lies_below_hidden(
            entries,
            at,
        ))) by {
            if entry is Some {
                if before.passes_over(entry->0) {
                    let above = choose|above: int|
                        #[trigger] hides_until(entries, above, at) && entries[above]->0.depth
                            == before.pruned_below->0;
                    assert(hides_until(entries, above, at + 1));
                }
                if lies_below_hidden(entries, at) {
                    let above = choose|above: int|
                        #[trigger] hides_until(entries, above, at + 1) && above < at;
                    assert(hides_until(entries, above, at));
                }
            }
        }
        assert(before.counts(entry) <==> is_visible_file(entries, at));
        assert(before.reports_at(entry) <==> is_reported_file(
            start.progress.files_scanned as int,
            entries,
            at,
        ));

        // What is pruned after the entry is what hides at the new end.
        if reached.pruned_below is Some {
            if before.regards(entry) {
                assert(hides_until(entries, at, upto));
            } else {
                let above = choose|above: int|
                    #[trigger] hides_until(entries, above, at) && entries[above]->0.depth
                        == before.pruned_below->0;
                assert(hides_until(entries, above, upto));
            }
        }
        assert forall|above: int| #[trigger] hides_until(entries, above, upto) implies (
        reached.pruned_below is Some && reached.pruned_below->0 <= entries[above]->0.depth) by {
            if above < at {
                assert(hides_until(entries, above, at));
            }
        }
        assert(reached.listed =~= start.listed.update(
            start.listed.len() - 1,
            FileEntryView {
                size: (start.listed.last().size + visible_bytes(entries, upto)) as u64,
                ..start.listed.last()
            },
        ));
    }
}

/// A walk adds to the directory that is walked the lengths of the visible
/// files of its subtree and to the number of files scanned their number, as
/// far as the sums stay within 64 bits. It changes nothing else of the
/// listing. To the bytes reported it adds the lengths of the files at which
/// progress is reported, as far as that sum stays within 64 bits.
pub proof fn lemma_walk_sums_visible_files(start: ScanView, entries: Seq<Option<WalkEntry>>)
    requires
        start.walking,
        start.pruned_below is None,
        start.listed.len() > 0,
        start.listed.last().size + visible_bytes(entries, entries.len() as int) <= u64::MAX,
        start.progress.files_scanned + visible_files(entries, entries.len() as int) <= u64::MAX,
    ensures
        ({
            let end = start.after_walk(entries);
            &&& end.walking
            &&& end.listed == start.listed.update(
                start.listed.len() - 1,
                FileEntryView {
                    size: (start.listed.last().size + visible_bytes(
                        entries,
                        entries.len() as int,
                    )) as u64,
                    ..start.listed.last()
                },
            )
            &&& end.progress.files_scanned == start.progress.files_scanned + visible_files(
                entries,
                entries.len() as int,
            )
            &&& start.progress.total_bytes + reported_bytes(
                start.progress.files_scanned as int,
                entries,
                entries.len() as int,
            ) <= u64::MAX ==> end.progress.total_bytes == start.progress.total_bytes
                + reported_bytes(
                start.progress.files_scanned as int,
                entries,
                entries.len() as int,
            )
        }),
{
    lemma_scan_keeps_track(start, entries, entries.len() as int);
    assert(entries.take(entries.len() as int) =~= entries);
}

/// A child that is a directory is listed with the sum of the lengths of the
/// visible files of its subtree, once the walk of the subtree is reported.
pub proof fn lemma_directory_is_listed_with_its_visible_bytes(
    scan: ScanView,
    child: ChildReading,
    entries: Seq<Option<WalkEntry>>,
)
    requires
        child_step(Some(child)) == ChildStep::Descend,
        visible_bytes(entries, entries.len() as int) <= u64::MAX,
        scan.progress.files_scanned + visible_files(entries, entries.len() as int) <= u64::MAX,
    ensures
        scan.after_child(Some(child)).after_walk(entries).progress.files_scanned
            == scan.progress.files_scanned + visible_files(entries, entries.len() as int),
        scan.after_child(Some(child)).after_walk(entries).listed == scan.listed.push(
            FileEntryView {
                path: child.path@,
                name: child.name@,
                size: visible_bytes(entries, entries.len() as int) as u64,
                is_dir: true,
                extension: None,
            },
        ),
{
    let start = scan.after_child(Some(child));
    lemma_walk_sums_visible_files(start, entries);
    assert(start.after_walk(entries).listed =~= scan.listed.push(
        FileEntryView {
            path: child.path@,
            name: child.name@,
            size: visible_bytes(entries, entries.len() as int) as u64,
            is_dir: true,
            extension: None,
        },
    ));
}

/// What is reported of one child of the scanned directory: the child, and the
/// walk of its subtree, which is empty where there is none.
pub struct ChildReport {
    pub child: Option<ChildReading>,
    pub walk: Seq<Option<WalkEntry>>,
}

/// The scan after the child and the walk of a report.
pub open spec fn after_report(scan: ScanView, report: ChildReport) -> ScanView {
    scan.after_child(report.child).after_walk(report.walk)
}

/// The scan after a run of reports.
pub open spec fn after_reports(scan: ScanView, reports: Seq<ChildReport>) -> ScanView
    decreases reports.len(),
{
    if reports.len() == 0 {
        scan
    } else {
        after_report(after_reports(scan, reports.drop_last()), reports.last())
    }
}

/// The visible files of the walk of a report, which count only where the
/// child is a directory that is listed.
pub open spec fn files_of(report: ChildReport) -> int {
    if child_step(report.child) == ChildStep::Descend {
        visible_files(report.walk, report.walk.len() as int)
    } else {
        0
    }
}

/// The bytes of the visible files of the walk of a report.
pub open spec fn bytes_of(report: ChildReport) -> int {
    if child_step(report.child) == ChildStep::Descend {
        visible_bytes(report.walk, report.walk.len() as int)
    } else {
        0
    }
}

/// The visible files of the walks of a run of reports.
pub open spec fn files_of_all(reports: Seq<ChildReport>) -> int
    decreases reports.len(),
{
    if reports.len() == 0 {
        0
    } else {
        files_of_all(reports.drop_last()) + files_of(reports.last())
    }
}

/// The entry that a report brings into the listing, if any: a file with the
/// length that was read, a directory with the bytes of the visible files of
/// its subtree.
pub open spec fn entry_of(report: ChildReport) -> Option<FileEntryView> {
    match child_step(report.child) {
        ChildStep::Skipped => None,
        ChildStep::Listed => Some(child_entry(report.child->0, report.child->0.metadata->0)),
        ChildStep::Descend => Some(
            FileEntryView {
                size: bytes_of(report) as u64,
                ..child_entry(report.child->0, report.child->0.metadata->0)
            },
        ),
    }
}

/// The entries that a run of reports brings into the listing, in the order
/// of the reports.
pub open spec fn entries_of(reports: Seq<ChildReport>) -> Seq<FileEntryView>
    decreases reports.len(),
{
    if reports.len() == 0 {
        Seq::empty()
    } else {
        match entry_of(reports.last()) {
            Some(entry) => entries_of(reports.drop_last()).push(entry),
            None => entries_of(reports.drop_last()),
        }
    }
}

/// Every entry that reports bring into the listing is one that a listing may
/// hold: none has a hidden name.
pub proof fn lemma_reported_entries_are_listable(reports: Seq<ChildReport>)
    ensures
        forall|i: int|
            0 <= i < entries_of(reports).len() ==> is_listable(#[trigger] entries_of(reports)[i]),
    decreases reports.len(),
{
    if reports.len() > 0 {
        let earlier = entries_of(reports.drop_last());
        lemma_reported_entries_are_listable(reports.drop_last());
        assert forall|i: int| 0 <= i < entries_of(reports).len() implies is_listable(
            #[trigger] entries_of(reports)[i],
        ) by {
            if i < earlier.len() {
                assert(entries_of(reports)[i] == earlier[i]);
            }
        }
    }
}

/// No run of reports has a negative number of visible files.
pub proof fn lemma_files_of_all_is_natural(reports: Seq<ChildReport>)
    ensures
        0 <= files_of_all(reports),
        reports.len() > 0 ==> files_of_all(reports.drop_last()) <= files_of_all(reports),
    decreases reports.len(),
{
    if reports.len() > 0 {
        lemma_files_of_all_is_natural(reports.drop_last());
        lemma_visible_sums_grow(reports.last().walk, 0, reports.last().walk.len() as int);
    }
}

/// What a scan lists. After any run of reports the listing holds, behind
/// what it held before, one entry for each child that could be read and is
/// not hidden: a file with its length, a directory with the sum of the
/// lengths of the visible files of its subtree. The number of files scanned
/// has grown by the number of those visible files. This holds as far as the
/// sums stay within 64 bits.
pub proof fn lemma_scan_lists_what_is_reported(scan: ScanView, reports: Seq<ChildReport>)
    requires
        forall|i: int| 0 <= i < reports.len() ==> bytes_of(#[trigger] reports[i]) <= u64::MAX,
        scan.progress.files_scanned + files_of_all(reports) <= u64::MAX,
    ensures
        after_reports(scan, reports).listed == scan.listed + entries_of(reports),
        after_reports(scan, reports).progress.files_scanned == scan.progress.files_scanned
            + files_of_all(reports),
    decreases reports.len(),
{
    if reports.len() == 0 {
        assert(scan.listed + entries_of(reports) =~= scan.listed);
    } else {
        let earlier = reports.drop_last();
        let report = reports.last();
        lemma_files_of_all_is_natural(reports);
        lemma_files_of_all_is_natural(earlier);
        assert forall|i: int| 0 <= i < earlier.len() implies bytes_of(#[trigger] earlier[i])
            <= u64::MAX by {
            assert(earlier[i] == reports[i]);
        }
        lemma_scan_lists_what_is_reported(scan, earlier);
        let before = after_reports(scan, earlier);
        let listed = before.after_child(report.child);
        match child_step(report.child) {
            ChildStep::Descend => {
                lemma_directory_is_listed_with_its_visible_bytes(
                    before,
                    report.child->0,
                    report.walk,
                );
            },
            _ => {
                lemma_passed_over_entries_change_nothing(listed, report.walk);
            },
        }
        assert(after_reports(scan, reports).listed =~= scan.listed + entries_of(reports));
    }
}

/// A scan that begins with nothing lists just what the reports bring.
pub proof fn lemma_scan_result(reports: Seq<ChildReport>)
    requires
        forall|i: int| 0 <= i < reports.len() ==> bytes_of(#[trigger] reports[i]) <= u64::MAX,
        files_of_all(reports) <= u64::MAX,
    ensures
        after_reports(ScanView::start(), reports).listed == entries_of(reports),
        after_reports(ScanView::start(), reports).progress.files_scanned == files_of_all(
            reports,
        ),
{
    lemma_scan_lists_what_is_reported(ScanView::start(), reports);
    assert(ScanView::start().listed + entries_of(reports) =~= entries_of(reports));
}

} // verus!
