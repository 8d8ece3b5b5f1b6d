use unity_launcher::calendar::timestamp_at;
use unity_launcher::logs::{
    is_auth_log, is_launch_log, prune_auth_logs, prune_launch_logs, prune_logs, LogEntry,
    KEEP_AUTH_LOGS, KEEP_LAUNCH_LOGS,
};

fn aged(name: &str, age_secs: i128) -> LogEntry {
    LogEntry { name: name.to_string(), modified: Some(1_800_000_000 - age_secs) }
}

fn names(entries: &Vec<LogEntry>, gone: &Vec<usize>) -> Vec<String> {
    gone.iter().map(|i| entries[*i].name.clone()).collect()
}

#[test]
fn is_launch_log_excludes_auth_and_other_logs() {
    assert!(is_launch_log("unity-2026-05-28T06-55-40Z.log"));
    assert!(!is_launch_log("unity-auth-2026-05-28T06-55-40Z.log"));
    assert!(!is_launch_log("AssetImportWorker0.log"));
    assert!(!is_launch_log("unity-2026.txt"));
    assert!(!is_launch_log(".DS_Store"));
}

#[test]
fn is_auth_log_matches_only_auth_logs() {
    assert!(is_auth_log("unity-auth-2026-05-28T06-55-40Z.log"));
    assert!(!is_auth_log("unity-2026-05-28T06-55-40Z.log"));
    assert!(!is_auth_log("auth.log"));
}

#[test]
fn prune_logs_keeps_n_newest_by_mtime() {
    let names = [
        "unity-2026-01-01T00-00-00Z.log",
        "unity-2026-02-01T00-00-00Z.log",
        "unity-2026-03-01T00-00-00Z.log",
        "unity-2026-04-01T00-00-00Z.log",
        "unity-2026-05-01T00-00-00Z.log",
    ];
    // Older first: index 0 is oldest (5000s ago), index 4 is newest (1000s ago).
    let entries: Vec<LogEntry> = names
        .iter()
        .enumerate()
        .map(|(i, n)| aged(n, (5 - i as i128) * 1000))
        .collect();
    let gone = prune_logs(&entries, is_launch_log, 2);
    for i in 0..3 {
        assert!(gone.contains(&i), "expected {} deleted", names[i]);
    }
    for i in 3..5 {
        assert!(!gone.contains(&i), "expected {} kept", names[i]);
    }
}

#[test]
fn prune_launch_logs_does_not_touch_auth_logs() {
    let mut entries: Vec<LogEntry> = (0..5)
        .map(|i| aged(&format!("unity-2026-0{}-01T00-00-00Z.log", i + 1), (5 - i) * 1000))
        .collect();
    // Make auth log the oldest so a naive prefix-only matcher would delete it.
    entries.push(aged("unity-auth-2026-01-01T00-00-00Z.log", 99999));

    let gone = prune_logs(&entries, is_launch_log, 2);

    assert!(!gone.contains(&5), "auth log must survive launch-log pruning");
    let surviving = (0..5).filter(|i| !gone.contains(i)).count();
    assert_eq!(surviving, 2);
}

#[test]
fn prune_logs_is_noop_under_cap() {
    let entries: Vec<LogEntry> =
        (0..3).map(|i| aged(&format!("unity-2026-0{i}-01T00-00-00Z.log"), 100)).collect();
    let gone = prune_logs(&entries, is_launch_log, 10);
    assert_eq!(entries.len() - gone.len(), 3);
}

#[test]
fn pruning_goes_by_age_not_by_name_and_keeps_ties_in_order() {
    let entries = vec![
        aged("unity-b.log", 10),
        aged("unity-a.log", 30),
        LogEntry { name: "unity-c.log".to_string(), modified: None },
        aged("unity-d.log", 30),
        aged("notes.txt", 99),
        aged("unity-e.log", 20),
    ];
    let gone = prune_logs(&entries, is_launch_log, 1);
    assert_eq!(names(&entries, &gone), ["unity-c.log", "unity-a.log", "unity-d.log", "unity-e.log"]);
    let none = prune_logs(&entries, is_launch_log, 5);
    assert!(none.is_empty());
    let all = prune_logs(&entries, is_launch_log, 0);
    assert_eq!(all, [2, 1, 3, 5, 0]);
}

#[test]
fn matcher_is_used_as_given() {
    let entries = vec![aged("x", 3), aged("y", 2), aged("x", 1)];
    assert_eq!(prune_logs(&entries, |n: &str| n == "x", 1), [0]);
    assert!(prune_logs(&entries, |_: &str| false, 0).is_empty());
}

#[test]
fn caps_of_either_kind() {
    let mut entries: Vec<LogEntry> = Vec::new();
    for i in 0..40 {
        entries.push(aged(&format!("unity-{i}.log"), i));
        entries.push(aged(&format!("unity-auth-{i}.log"), i));
    }
    assert_eq!(KEEP_LAUNCH_LOGS, 30);
    assert_eq!(KEEP_AUTH_LOGS, 10);
    let launch = prune_launch_logs(&entries);
    assert_eq!(launch.len(), 10);
    assert_eq!(entries[launch[0]].name, "unity-39.log");
    assert_eq!(entries[launch[9]].name, "unity-30.log");
    let auth = prune_auth_logs(&entries);
    assert_eq!(auth.len(), 30);
    assert!(auth.iter().all(|i| is_auth_log(&entries[*i].name)));
}

#[test]
fn own_log_names_are_recognised() {
    let stamp = timestamp_at(1_779_951_340);
    assert!(is_launch_log(&format!("unity-{stamp}.log")));
    assert!(is_auth_log(&format!("unity-auth-{stamp}.log")));
    assert!(!is_launch_log(&format!("unity-auth-{stamp}.log")));
}

#[test]
fn pruning_again_finds_nothing_to_remove() {
    let ages = [5, 1, 4, 4, 9, 2, 7];
    let entries: Vec<LogEntry> =
        ages.iter().enumerate().map(|(i, a)| aged(&format!("unity-{i}.log"), *a)).collect();
    for keep in 0..9 {
        let gone = prune_logs(&entries, is_launch_log, keep);
        // What is left, listed the other way round.
        let later: Vec<LogEntry> = (0..entries.len())
            .rev()
            .filter(|i| !gone.contains(i))
            .map(|i| aged(&format!("unity-{i}.log"), ages[i]))
            .collect();
        assert_eq!(later.len(), keep.min(ages.len()));
        assert!(prune_logs(&later, is_launch_log, keep).is_empty());
        assert!(prune_logs(&later, is_launch_log, keep + 3).is_empty());
    }
}
