use eve_preview_manager::backup::{BackupEntry, BackupManager};

const DAY: u128 = 86_400 * 1_000_000_000;

fn entry(name: &str, ts: u128, manual: bool) -> BackupEntry {
    BackupEntry { filename: name.to_string(), timestamp: ts, is_manual: manual }
}

#[test]
fn backup_names() {
    assert_eq!(BackupManager::backup_filename(false, "20240102_030405"), "auto_backup_20240102_030405.tar.gz");
    assert_eq!(BackupManager::backup_filename(true, "20240102_030405"), "manual_backup_20240102_030405.tar.gz");
    assert!(BackupManager::is_manual("manual_backup_x.tar.gz"));
    assert!(!BackupManager::is_manual("auto_backup_x.tar.gz"));
    assert!(BackupManager::is_backup_file("auto_backup_x.tar.gz"));
    assert!(!BackupManager::is_backup_file(".gz"));
    assert!(!BackupManager::is_backup_file("config.json"));
}

#[test]
fn backups_listed_newest_first() {
    let files = vec![
        ("auto_backup_1.tar.gz".to_string(), 10u128),
        ("notes.txt".to_string(), 99u128),
        ("manual_backup_2.tar.gz".to_string(), 30u128),
        ("auto_backup_3.tar.gz".to_string(), 20u128),
    ];
    let list = BackupManager::collect_backups(files);
    let names: Vec<&str> = list.iter().map(|b| b.filename.as_str()).collect();
    assert_eq!(names, vec!["manual_backup_2.tar.gz", "auto_backup_3.tar.gz", "auto_backup_1.tar.gz"]);
    assert!(list[0].is_manual && !list[1].is_manual);
}

#[test]
fn pruning_keeps_newest_auto_backups() {
    let list = vec![
        entry("a5", 50, false),
        entry("m", 45, true),
        entry("a4", 40, false),
        entry("a3", 30, false),
        entry("a2", 20, false),
    ];
    assert_eq!(BackupManager::backups_to_prune(&list, 2), vec!["a3".to_string(), "a2".to_string()]);
    assert!(BackupManager::backups_to_prune(&list, 4).is_empty());
    assert_eq!(BackupManager::backups_to_prune(&list, 0).len(), 4);
}

#[test]
fn auto_backup_schedule() {
    let list = vec![entry("m", 100 * DAY, true), entry("a", 10 * DAY, false)];
    assert!(!BackupManager::should_run_auto_backup(0, Some(&list), 100 * DAY));
    assert!(BackupManager::should_run_auto_backup(7, None, 0));
    assert!(BackupManager::should_run_auto_backup(7, Some(&vec![entry("m", 0, true)]), 0));
    assert!(BackupManager::should_run_auto_backup(7, Some(&list), 17 * DAY));
    assert!(!BackupManager::should_run_auto_backup(7, Some(&list), 17 * DAY - 1));
    assert!(BackupManager::should_run_auto_backup(7, Some(&list), 9 * DAY));
}

#[test]
fn pruning_leaves_manual_and_newest_automatic_backups() {
    let list = vec![
        entry("a6", 70, false),
        entry("a5", 60, false),
        entry("m", 55, true),
        entry("a4", 50, false),
        entry("a3", 40, false),
        entry("a2", 30, false),
        entry("a1", 20, false),
    ];
    let pruned = BackupManager::backups_to_prune(&list, 3);
    let left: Vec<&str> = list
        .iter()
        .filter(|b| !pruned.contains(&b.filename))
        .map(|b| b.filename.as_str())
        .collect();
    assert_eq!(left, vec!["a6", "a5", "m", "a4"]);
}

#[test]
fn backups_with_equal_times_keep_directory_order() {
    let files = vec![
        ("b_backup.tar.gz".to_string(), 5u128),
        ("notes.txt".to_string(), 9u128),
        ("a_backup.tar.gz".to_string(), 5u128),
        ("manual_backup_x.tar.gz".to_string(), 7u128),
        ("c_backup.tar.gz".to_string(), 5u128),
    ];
    let list = BackupManager::collect_backups(files);
    let names: Vec<&str> = list.iter().map(|b| b.filename.as_str()).collect();
    assert_eq!(names, vec!["manual_backup_x.tar.gz", "b_backup.tar.gz", "a_backup.tar.gz", "c_backup.tar.gz"]);
    assert!(list[0].is_manual);
}
