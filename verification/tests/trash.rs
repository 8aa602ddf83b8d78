use dev_cleaner::trash::{
    count_components, gc_select, gc_trash, latest_batch_id, list_trash_batches, path_to_trash_relpath,
    purge_trash_batch, restore_batch, restore_order, restore_step, trash_entries_for_batch, BatchRemoval,
    RestoreOutcome, RestoreStep, TrashEntry, TrashManager,
};

const NOW: i64 = 1_700_000_000;
const DAY: i64 = 86_400;

fn entry(batch: &str, created_at: i64, original: &str, size: u64) -> TrashEntry {
    TrashEntry {
        batch_id: batch.to_string(),
        created_at,
        original_path: original.to_string(),
        trashed_path: format!("/trash/{}/{}", batch, original.trim_start_matches('/')),
        size,
        tool_version: None,
    }
}

#[test]
fn test_trash_and_restore_roundtrip() {
    let manager = TrashManager::new_with_root("/tmp/trash".to_string(), "batch-1".to_string());
    let trashed = manager.trash_dir("/tmp/src/to-delete", 1, NOW, Some("0.1.0".to_string()));
    assert_eq!(trashed.batch_id, "batch-1");
    assert_eq!(trashed.original_path, "/tmp/src/to-delete");
    assert_eq!(trashed.trashed_path, "/tmp/trash/batch-1/tmp/src/to-delete");
    assert_eq!(trashed.size, 1);
    assert_eq!(trashed.created_at, NOW);
    assert_eq!(trashed.tool_version.as_deref(), Some("0.1.0"));
    assert_eq!(manager.log_path(), "/tmp/trash/trash_log.jsonl");
    assert_eq!(manager.root(), "/tmp/trash");
    assert_eq!(manager.batch_dir(), "/tmp/trash/batch-1");

    let log = vec![trashed];
    assert_eq!(restore_step(true, false, false, false), RestoreStep::Restore { replace: false });
    let result = restore_batch(&log, &manager.batch_id, &vec![RestoreOutcome::Restored]);
    assert_eq!(result.restored_count, 1);
    assert_eq!(result.skipped_count, 0);
    assert_eq!(result.failed_count, 0);
    assert!(result.errors.is_empty());
}

#[test]
fn test_list_and_purge_trash_batch() {
    let manager = TrashManager::new_with_root("/tmp/trash".to_string(), "batch-1".to_string());
    let log = vec![
        manager.trash_dir("/tmp/src/a", 10, NOW, None),
        manager.trash_dir("/tmp/src/b", 20, NOW + 1, None),
    ];

    let batches = list_trash_batches(&log);
    assert_eq!(batches.len(), 1);
    assert_eq!(batches[0].batch_id, manager.batch_id);
    assert_eq!(batches[0].entries_count, 2);
    assert_eq!(batches[0].total_size, 30);
    assert_eq!(batches[0].created_at, NOW);

    let entries = trash_entries_for_batch(&log, &manager.batch_id);
    assert_eq!(entries.len(), 2);

    let (purge, kept) = purge_trash_batch(&log, "/tmp/trash", &manager.batch_id, false, &BatchRemoval::Removed);
    assert_eq!(purge.removed_entries, 2);
    assert_eq!(purge.removed_bytes, 30);
    assert_eq!(purge.removed_batches, 1);
    assert_eq!(purge.failed_batches, 0);

    let batches_after = list_trash_batches(&kept.unwrap());
    assert!(batches_after.is_empty());
}

#[test]
fn test_gc_by_keep_bytes() {
    let entries = vec![entry("batch1", NOW, "/tmp/a", 5), entry("batch2", NOW, "/tmp/b", 6)];
    let (result, kept) = gc_trash(&entries, "/tmp/trash", None, Some(0), true, NOW, &Vec::new());
    assert_eq!(result.removed_batches, 2);
    assert_eq!(result.removed_bytes, 11);
    assert_eq!(result.removed_entries, 2);
    assert_eq!(result.remaining_bytes, 0);
    assert_eq!(result.target_keep_bytes, Some(0));
    assert!(!result.blocked_by_keep_days);
    assert!(kept.is_none());
}

#[test]
fn relative_trash_path_drops_the_leading_separators() {
    assert_eq!(path_to_trash_relpath("/a/b"), "a/b");
    assert_eq!(path_to_trash_relpath("a/b"), "a/b");
    assert_eq!(path_to_trash_relpath("///a"), "a");
    assert_eq!(path_to_trash_relpath("/"), "");
    assert_eq!(path_to_trash_relpath(""), "");
}

#[test]
fn batches_are_listed_newest_first() {
    let log = vec![
        entry("old", NOW - 10 * DAY, "/a", 1),
        entry("new", NOW - DAY, "/b", 2),
        entry("old", NOW - 12 * DAY, "/c", 4),
        entry("mid", NOW - 5 * DAY, "/d", 8),
    ];
    let batches = list_trash_batches(&log);
    let ids: Vec<&str> = batches.iter().map(|b| b.batch_id.as_str()).collect();
    assert_eq!(ids, vec!["new", "mid", "old"]);
    assert_eq!(batches[2].created_at, NOW - 12 * DAY);
    assert_eq!(batches[2].entries_count, 2);
    assert_eq!(batches[2].total_size, 5);
    assert!(list_trash_batches(&Vec::new()).is_empty());
}

#[test]
fn latest_batch_is_that_of_the_last_entry_trashed() {
    assert_eq!(latest_batch_id(&Vec::new()), None);
    let log = vec![
        entry("one", NOW - 2, "/a", 1),
        entry("two", NOW, "/b", 1),
        entry("three", NOW - 1, "/c", 1),
        entry("four", NOW, "/d", 1),
    ];
    assert_eq!(latest_batch_id(&log).as_deref(), Some("four"));
    assert_eq!(latest_batch_id(&log[..3].iter().map(|e| e.duplicate()).collect()).as_deref(), Some("two"));
}

#[test]
fn entries_of_a_batch_come_in_the_order_of_their_paths() {
    let log = vec![
        entry("b", NOW, "/p/a-b", 1),
        entry("x", NOW, "/p/0", 1),
        entry("b", NOW, "/p/a/b", 1),
        entry("b", NOW, "/p/a", 1),
    ];
    let listed = trash_entries_for_batch(&log, "b");
    let paths: Vec<&str> = listed.iter().map(|e| e.original_path.as_str()).collect();
    assert_eq!(paths, vec!["/p/a", "/p/a/b", "/p/a-b"]);
    let mut by_std: Vec<std::path::PathBuf> =
        vec!["/p/a-b".into(), "/p/a/b".into(), "/p/a".into()];
    by_std.sort();
    let std_paths: Vec<String> = by_std.iter().map(|p| p.display().to_string()).collect();
    assert_eq!(paths, std_paths);
    assert!(trash_entries_for_batch(&log, "none").is_empty());
}

#[test]
fn deeper_paths_are_restored_first() {
    assert_eq!(count_components("/a/b"), 3);
    assert_eq!(count_components("a/b"), 2);
    assert_eq!(count_components("/"), 1);
    assert_eq!(count_components(""), 0);
    assert_eq!(count_components("/a//b/"), 3);
    let log = vec![
        entry("b", NOW, "/p/a", 1),
        entry("b", NOW, "/p/a/b/c", 1),
        entry("other", NOW, "/p/a/b/c/d/e", 1),
        entry("b", NOW, "/p/z", 1),
        entry("b", NOW, "/p/a/b", 1),
    ];
    let order = restore_order(&log, "b");
    let paths: Vec<&str> = order.iter().map(|e| e.original_path.as_str()).collect();
    assert_eq!(paths, vec!["/p/a/b/c", "/p/a/b", "/p/a", "/p/z"]);
}

#[test]
fn restore_counts_each_outcome() {
    assert_eq!(restore_step(false, true, false, true), RestoreStep::SkipMissing);
    assert_eq!(restore_step(true, true, false, false), RestoreStep::SkipExisting);
    assert_eq!(restore_step(true, true, true, false), RestoreStep::SkipExisting);
    assert_eq!(restore_step(true, true, true, true), RestoreStep::WouldRestore);
    assert_eq!(restore_step(true, false, true, false), RestoreStep::WouldRestore);
    assert_eq!(restore_step(true, true, false, true), RestoreStep::Restore { replace: true });

    let log = vec![
        entry("b", NOW, "/p/1", 1),
        entry("b", NOW, "/p/2", 1),
        entry("b", NOW, "/p/3", 1),
        entry("b", NOW, "/p/4", 1),
        entry("b", NOW, "/p/5", 1),
    ];
    let outcomes = vec![
        RestoreOutcome::SkippedMissing,
        RestoreOutcome::SkippedExisting,
        RestoreOutcome::WouldRestore,
        RestoreOutcome::Restored,
        RestoreOutcome::Failed("busy".to_string()),
    ];
    let r = restore_batch(&log, "b", &outcomes);
    assert_eq!(r.restored_count, 2);
    assert_eq!(r.skipped_count, 2);
    assert_eq!(r.failed_count, 1);
    assert_eq!(
        r.errors,
        vec![
            "Restore target already exists (use --force to override): /p/2",
            "Failed to restore /p/5: busy",
        ]
    );

    let none = restore_batch(&log, "missing", &outcomes);
    assert_eq!(none.restored_count, 0);
    assert_eq!(none.skipped_count, 0);
    assert_eq!(none.failed_count, 0);
    assert_eq!(none.errors, vec!["No entries found for batch_id `missing`"]);
}

#[test]
fn purge_reports_and_keeps_the_other_batches() {
    let log = vec![entry("a", NOW, "/x", 10), entry("b", NOW, "/y", 20), entry("a", NOW, "/z", 30)];

    let (dry, kept) = purge_trash_batch(&log, "/t", "a", true, &BatchRemoval::Absent);
    assert_eq!(dry.removed_batches, 1);
    assert_eq!(dry.removed_entries, 2);
    assert_eq!(dry.removed_bytes, 40);
    assert_eq!(dry.failed_batches, 0);
    assert!(kept.is_none());

    let (done, kept) = purge_trash_batch(&log, "/t", "a", false, &BatchRemoval::Absent);
    assert_eq!(done.removed_batches, 1);
    assert_eq!(done.failed_batches, 0);
    let kept = kept.unwrap();
    assert_eq!(kept.len(), 1);
    assert_eq!(kept[0].batch_id, "b");

    let (link, kept) = purge_trash_batch(&log, "/t", "a", false, &BatchRemoval::Symlink);
    assert_eq!(link.failed_batches, 1);
    assert_eq!(link.errors, vec!["Refusing to purge symlink path: /t/a"]);
    assert!(kept.is_none());

    let (failed, kept) =
        purge_trash_batch(&log, "/t", "a", false, &BatchRemoval::Failed("denied".to_string()));
    assert_eq!(failed.failed_batches, 1);
    assert_eq!(failed.errors, vec!["Failed to remove batch dir /t/a: denied"]);
    assert_eq!(failed.removed_entries, 2);
    assert!(kept.is_none());

    let (nothing, kept) = purge_trash_batch(&log, "/t", "zzz", false, &BatchRemoval::Absent);
    assert_eq!(nothing.removed_batches, 0);
    assert_eq!(nothing.removed_entries, 0);
    assert_eq!(nothing.removed_bytes, 0);
    assert_eq!(kept.unwrap().len(), 3);
}

#[test]
fn collection_by_age_takes_only_expired_batches() {
    let log = vec![
        entry("old", NOW - 40 * DAY, "/a", 100),
        entry("new", NOW - 2 * DAY, "/b", 50),
        entry("edge", NOW - 30 * DAY, "/c", 25),
    ];
    let sel = gc_select(&log, Some(30), Some(10), NOW);
    let ids: Vec<&str> = sel.selected.iter().map(|b| b.batch_id.as_str()).collect();
    assert_eq!(ids, vec!["old"]);
    assert_eq!(sel.total_bytes, 175);
    assert_eq!(sel.bytes_after, 75);
    assert!(sel.blocked_by_keep_days);

    let relaxed = gc_select(&log, Some(30), Some(75), NOW);
    assert!(!relaxed.blocked_by_keep_days);
    let none = gc_select(&log, None, None, NOW);
    assert!(none.selected.is_empty());
    assert_eq!(none.bytes_after, 175);
}

#[test]
fn collection_by_size_takes_the_oldest_batches_first() {
    let log = vec![
        entry("mid", NOW - 5 * DAY, "/a", 100),
        entry("old", NOW - 9 * DAY, "/b", 50),
        entry("new", NOW - DAY, "/c", 25),
    ];
    let sel = gc_select(&log, None, Some(30), NOW);
    let ids: Vec<&str> = sel.selected.iter().map(|b| b.batch_id.as_str()).collect();
    assert_eq!(ids, vec!["old", "mid"]);
    assert_eq!(sel.bytes_after, 25);
    assert!(!sel.blocked_by_keep_days);
    assert!(gc_select(&log, None, Some(175), NOW).selected.is_empty());

    let removals = vec![BatchRemoval::Removed, BatchRemoval::Failed("busy".to_string())];
    let (result, kept) = gc_trash(&log, "/t", None, Some(30), false, NOW, &removals);
    assert_eq!(result.removed_batches, 1);
    assert_eq!(result.removed_entries, 1);
    assert_eq!(result.removed_bytes, 50);
    assert_eq!(result.remaining_bytes, 125);
    assert_eq!(result.failed_batches, 1);
    assert_eq!(result.errors, vec!["Failed to remove batch dir /t/mid: busy"]);
    let kept = kept.unwrap();
    let left: Vec<&str> = kept.iter().map(|e| e.batch_id.as_str()).collect();
    assert_eq!(left, vec!["mid", "new"]);

    let (all_failed, kept) = gc_trash(&log, "/t", None, Some(30), false, NOW, &vec![BatchRemoval::Symlink]);
    assert_eq!(all_failed.removed_batches, 0);
    assert_eq!(all_failed.failed_batches, 2);
    assert_eq!(
        all_failed.errors,
        vec![
            "Refusing to purge symlink path: /t/old",
            "Failed to remove batch dir /t/mid: no outcome reported",
        ]
    );
    assert_eq!(all_failed.remaining_bytes, 175);
    assert!(kept.is_none());
}
