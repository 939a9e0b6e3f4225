use file_explorer::{
    begin_undo, generate_staging_name, is_hidden, plan_delete, staging_dir_name, ActiveRestore,
    ExplorerError, RestoreProbe, RestoreStep, StagedDelete, TrashAction, UndoStack,
};

const CLEAR: RestoreProbe =
    RestoreProbe { staged_exists: true, parent_exists: Some(true), target_exists: false };

fn staged(path: &str, name: &str, size: u64, timestamp: u64) -> StagedDelete {
    plan_delete(path.to_string(), Some(size), Some(name.to_string()), timestamp)
        .unwrap()
        .staged(true)
        .unwrap()
}

fn deleted(
    stack: &mut UndoStack,
    path: &str,
    name: &str,
    size: u64,
    timestamp: u64,
) -> TrashAction {
    staged(path, name, size, timestamp).trashed(true, stack).unwrap()
}

fn restore_of(stack: &mut UndoStack) -> ActiveRestore {
    begin_undo(stack).unwrap().check(CLEAR).unwrap()
}

#[test]
fn the_staging_name_is_the_timestamp_and_the_file_name() {
    assert_eq!(generate_staging_name("file1.txt", 1000), "1000_file1.txt");
    assert_eq!(generate_staging_name("report.pdf", 1_700_000_000), "1700000000_report.pdf");
    assert_eq!(generate_staging_name("a", 0), "0_a");
    assert_eq!(generate_staging_name("", 7), "7_");
    assert_eq!(generate_staging_name("x", 10), "10_x");
    assert_eq!(generate_staging_name("x", 9), "9_x");
    assert_eq!(generate_staging_name("x", 1234567890), "1234567890_x");
    assert_eq!(generate_staging_name("1_b", 2), "2_1_b");
    assert_eq!(generate_staging_name("\u{e9}t\u{e9}.txt", 42), "42_\u{e9}t\u{e9}.txt");
    assert_eq!(generate_staging_name("max", u64::MAX), "18446744073709551615_max");
}

#[test]
fn the_staging_name_agrees_with_formatting() {
    for timestamp in [0u64, 1, 9, 10, 11, 99, 100, 101, 4096, 999_999, 1 << 40, u64::MAX - 1] {
        assert_eq!(
            generate_staging_name("name.ext", timestamp),
            format!("{}_{}", timestamp, "name.ext")
        );
    }
}

#[test]
fn repeated_deletes_of_one_name_get_different_staging_names() {
    assert_ne!(generate_staging_name("a.txt", 100), generate_staging_name("a.txt", 101));
    assert_ne!(generate_staging_name("1_a", 1), generate_staging_name("a", 11));
    assert_ne!(generate_staging_name("_a", 1), generate_staging_name("a", 1));
}

#[test]
fn the_staging_directory_is_hidden() {
    assert_eq!(staging_dir_name(), ".undo_staging");
    assert!(is_hidden(staging_dir_name()));
}

#[test]
fn a_delete_of_nothing_is_not_found() {
    let plan = plan_delete("/gone".to_string(), None, Some("gone".to_string()), 1);
    assert_eq!(plan.unwrap_err(), ExplorerError::NotFound);
    let plan = plan_delete("/gone".to_string(), None, None, 1);
    assert_eq!(plan.unwrap_err(), ExplorerError::NotFound);
}

#[test]
fn a_delete_without_a_name_is_an_invalid_name() {
    let plan = plan_delete("/".to_string(), Some(4096), None, 1);
    assert_eq!(plan.unwrap_err(), ExplorerError::InvalidName);
}

#[test]
fn a_plan_holds_what_was_read() {
    let plan = plan_delete(
        "/home/u/report.pdf".to_string(),
        Some(2048),
        Some("report.pdf".to_string()),
        1_700_000_000,
    )
    .unwrap();
    assert_eq!(plan.action().file_path, "/home/u/report.pdf");
    assert_eq!(plan.action().file_name, "report.pdf");
    assert_eq!(plan.action().original_size, 2048);
    assert_eq!(plan.action().trash_timestamp, 1_700_000_000);
    assert_eq!(plan.staging_name(), "1700000000_report.pdf");

    let staged = plan.staged(true).unwrap();
    assert_eq!(staged.action().file_path, "/home/u/report.pdf");
    assert_eq!(staged.action().original_size, 2048);
    assert_eq!(staged.staging_name(), "1700000000_report.pdf");
}

#[test]
fn a_failed_copy_ends_the_delete() {
    let plan = plan_delete("/a".to_string(), Some(1), Some("a".to_string()), 5).unwrap();
    assert_eq!(plan.staged(false).unwrap_err(), ExplorerError::StagingFailed);
}

#[test]
fn a_failed_move_to_the_trash_records_nothing() {
    let mut stack = UndoStack::new(4);
    stack.increment_stats(9);
    let done = staged("/a", "a", 100, 5).trashed(false, &mut stack);
    assert_eq!(done.unwrap_err(), ExplorerError::TrashFailed);
    assert_eq!(stack.stats(), (1, 9));
    assert!(stack.pop().is_none());
}

#[test]
fn a_delete_is_pushed_and_counted() {
    let mut stack = UndoStack::new(4);
    let action = deleted(&mut stack, "/home/u/a.txt", "a.txt", 100, 5);
    assert_eq!(action.file_path, "/home/u/a.txt");
    assert_eq!(action.file_name, "a.txt");
    assert_eq!(action.original_size, 100);
    assert_eq!(action.trash_timestamp, 5);
    assert_eq!(stack.stats(), (1, 100));

    deleted(&mut stack, "/home/u/b.txt", "b.txt", 23, 6);
    assert_eq!(stack.stats(), (2, 123));

    let top = stack.pop().unwrap();
    assert_eq!(top.file_path, "/home/u/b.txt");
    assert_eq!(top.file_name, "b.txt");
    assert_eq!(top.original_size, 23);
    assert_eq!(top.trash_timestamp, 6);
    assert_eq!(stack.pop().unwrap().file_name, "a.txt");
}

#[test]
fn an_undo_on_an_empty_history_returns_no_action() {
    let mut stack = UndoStack::new(1000);
    assert!(begin_undo(&mut stack).is_none());
    assert_eq!(stack.stats(), (0, 0));
    stack.increment_stats(3);
    assert!(begin_undo(&mut stack).is_none());
    assert_eq!(stack.stats(), (1, 3));
}

#[test]
fn an_undo_takes_the_most_recent_action() {
    let mut stack = UndoStack::new(10);
    deleted(&mut stack, "/d/a", "a", 1, 100);
    deleted(&mut stack, "/d/b", "b", 2, 200);
    let pending = begin_undo(&mut stack).unwrap();
    assert_eq!(pending.action().file_path, "/d/b");
    assert_eq!(pending.action().file_name, "b");
    assert_eq!(pending.action().original_size, 2);
    assert_eq!(pending.action().trash_timestamp, 200);
    assert_eq!(pending.staging_name(), "200_b");
    assert_eq!(stack.stats(), (2, 3));
    assert_eq!(begin_undo(&mut stack).unwrap().action().file_name, "a");
    assert!(begin_undo(&mut stack).is_none());
}

#[test]
fn an_undo_without_the_staged_copy_is_staging_missing() {
    let mut stack = UndoStack::new(10);
    deleted(&mut stack, "/d/a", "a", 1, 100);
    let probe =
        RestoreProbe { staged_exists: false, parent_exists: Some(true), target_exists: false };
    assert_eq!(
        begin_undo(&mut stack).unwrap().check(probe).unwrap_err(),
        ExplorerError::StagingMissing
    );
}

#[test]
fn an_undo_into_a_vanished_directory_is_target_dir_gone() {
    let mut stack = UndoStack::new(10);
    deleted(&mut stack, "/d/a", "a", 1, 100);
    let probe =
        RestoreProbe { staged_exists: true, parent_exists: Some(false), target_exists: false };
    assert_eq!(
        begin_undo(&mut stack).unwrap().check(probe).unwrap_err(),
        ExplorerError::TargetDirGone
    );
}

#[test]
fn an_undo_onto_a_recreated_file_is_target_exists() {
    let mut stack = UndoStack::new(10);
    deleted(&mut stack, "/d/a.txt", "a.txt", 77, 100);
    let probe =
        RestoreProbe { staged_exists: true, parent_exists: Some(true), target_exists: true };
    let pending = begin_undo(&mut stack).unwrap();
    assert_eq!(pending.staging_name(), "100_a.txt");
    assert_eq!(pending.check(probe).unwrap_err(), ExplorerError::TargetExists);
    assert_eq!(stack.stats(), (1, 77));
}

#[test]
fn the_first_thing_missed_decides_the_failure() {
    for parent_exists in [None, Some(true), Some(false)] {
        for target_exists in [false, true] {
            let mut stack = UndoStack::new(2);
            deleted(&mut stack, "/d/a", "a", 1, 1);
            let probe = RestoreProbe { staged_exists: false, parent_exists, target_exists };
            assert_eq!(
                begin_undo(&mut stack).unwrap().check(probe).unwrap_err(),
                ExplorerError::StagingMissing
            );
        }
    }
    for target_exists in [false, true] {
        let mut stack = UndoStack::new(2);
        deleted(&mut stack, "/d/a", "a", 1, 1);
        let probe = RestoreProbe { staged_exists: true, parent_exists: Some(false), target_exists };
        assert_eq!(
            begin_undo(&mut stack).unwrap().check(probe).unwrap_err(),
            ExplorerError::TargetDirGone
        );
    }
}

#[test]
fn a_path_without_a_parent_is_not_held_up() {
    let mut stack = UndoStack::new(2);
    deleted(&mut stack, "a", "a", 1, 1);
    let probe = RestoreProbe { staged_exists: true, parent_exists: None, target_exists: false };
    let restore = begin_undo(&mut stack).unwrap().check(probe).unwrap();
    assert_eq!(restore.step(), RestoreStep::Rename);

    deleted(&mut stack, "a", "a", 1, 1);
    let probe = RestoreProbe { staged_exists: true, parent_exists: None, target_exists: true };
    assert_eq!(
        begin_undo(&mut stack).unwrap().check(probe).unwrap_err(),
        ExplorerError::TargetExists
    );
}

#[test]
fn the_steps_of_a_restore_follow_each_other() {
    assert_eq!(RestoreStep::Rename.after(true), RestoreStep::Restored);
    assert_eq!(RestoreStep::Rename.after(false), RestoreStep::Copy);
    assert_eq!(RestoreStep::Copy.after(true), RestoreStep::RemoveStaged);
    assert_eq!(RestoreStep::Copy.after(false), RestoreStep::Failed);
    assert_eq!(RestoreStep::RemoveStaged.after(true), RestoreStep::Restored);
    assert_eq!(RestoreStep::RemoveStaged.after(false), RestoreStep::Failed);
    assert_eq!(RestoreStep::Restored.after(true), RestoreStep::Restored);
    assert_eq!(RestoreStep::Restored.after(false), RestoreStep::Restored);
    assert_eq!(RestoreStep::Failed.after(true), RestoreStep::Failed);
    assert_eq!(RestoreStep::Failed.after(false), RestoreStep::Failed);
}

#[test]
fn a_delete_followed_by_its_undo_leaves_the_counters_as_before() {
    let mut stack = UndoStack::new(10);
    deleted(&mut stack, "/d/old", "old", 40, 1);
    let before = stack.stats();

    deleted(&mut stack, "/d/a.txt", "a.txt", 100, 2);
    assert_eq!(stack.stats(), (2, 140));

    let restore = restore_of(&mut stack);
    assert_eq!(restore.action().file_path, "/d/a.txt");
    assert_eq!(restore.staging_name(), "2_a.txt");
    assert_eq!(restore.step(), RestoreStep::Rename);
    let restore = restore.performed(true);
    assert_eq!(restore.step(), RestoreStep::Restored);
    let action = restore.finish(&mut stack).unwrap();
    assert_eq!(action.file_path, "/d/a.txt");
    assert_eq!(action.file_name, "a.txt");
    assert_eq!(action.original_size, 100);
    assert_eq!(action.trash_timestamp, 2);

    assert_eq!(stack.stats(), before);
    assert_eq!(begin_undo(&mut stack).unwrap().action().file_name, "old");
}

#[test]
fn a_restore_falls_back_to_copy_and_remove() {
    let mut stack = UndoStack::new(10);
    deleted(&mut stack, "/d/a", "a", 10, 1);
    let restore = restore_of(&mut stack).performed(false);
    assert_eq!(restore.step(), RestoreStep::Copy);
    let restore = restore.performed(true);
    assert_eq!(restore.step(), RestoreStep::RemoveStaged);
    let restore = restore.performed(true);
    assert_eq!(restore.step(), RestoreStep::Restored);
    assert_eq!(restore.finish(&mut stack).unwrap().file_name, "a");
    assert_eq!(stack.stats(), (0, 0));
}

#[test]
fn a_failed_copy_fails_the_restore() {
    let mut stack = UndoStack::new(10);
    deleted(&mut stack, "/d/a", "a", 10, 1);
    let restore = restore_of(&mut stack).performed(false).performed(false);
    assert_eq!(restore.step(), RestoreStep::Failed);
    assert_eq!(restore.finish(&mut stack).unwrap_err(), ExplorerError::RestoreFailed);
    assert_eq!(stack.stats(), (1, 10));
}

#[test]
fn a_failed_removal_fails_the_restore() {
    let mut stack = UndoStack::new(10);
    deleted(&mut stack, "/d/a", "a", 10, 1);
    let restore = restore_of(&mut stack).performed(false).performed(true).performed(false);
    assert_eq!(restore.step(), RestoreStep::Failed);
    assert_eq!(restore.finish(&mut stack).unwrap_err(), ExplorerError::RestoreFailed);
    assert_eq!(stack.stats(), (1, 10));
}

#[test]
fn a_restore_that_was_not_carried_out_is_not_recorded() {
    for reports in 0..3usize {
        let mut stack = UndoStack::new(10);
        deleted(&mut stack, "/d/a", "a", 10, 1);
        let mut restore = restore_of(&mut stack);
        let outcomes = [false, true];
        for outcome in outcomes.iter().take(reports) {
            restore = restore.performed(*outcome);
        }
        if reports < 3 {
            assert_ne!(restore.step(), RestoreStep::Restored);
        }
        assert_eq!(restore.finish(&mut stack).unwrap_err(), ExplorerError::RestoreFailed);
        assert_eq!(stack.stats(), (1, 10));
    }
}

#[test]
fn every_failure_has_its_message() {
    assert_eq!(ExplorerError::NotFound.message(), "Path does not exist");
    assert_eq!(ExplorerError::NotADirectory.message(), "Path is not a directory");
    assert_eq!(ExplorerError::InvalidName.message(), "Invalid file name");
    assert_eq!(ExplorerError::StagingFailed.message(), "Failed to copy file to staging");
    assert_eq!(ExplorerError::TrashFailed.message(), "Failed to move file to trash");
    assert_eq!(
        ExplorerError::StagingMissing.message(),
        "Staging file not found. Cannot restore."
    );
    assert_eq!(ExplorerError::TargetDirGone.message(), "Original directory no longer exists");
    assert_eq!(
        ExplorerError::TargetExists.message(),
        "File already exists at original path. Cannot restore."
    );
    assert_eq!(ExplorerError::RestoreFailed.message(), "Failed to restore file");
    assert_eq!(ExplorerError::SystemDirectoryBlocked.message(), "System directory blocked");
}
