use unity_launcher::process::{
    eq_ignore_ascii_case, find_editor, find_process, find_processes, is_unity_alive, listed_pids, memmem_ci,
    pid_capacity, waitpid_exit, Liveness, ProcessScan, ScanQuestion,
};
use unity_launcher::paths::unity_path;
use unity_launcher::spawn::{spawn_unity, SpawnMode};

fn block(args: &[&str]) -> Vec<u8> {
    let mut out = vec![args.len() as u8, 0, 0, 0];
    for a in args {
        out.extend_from_slice(a.as_bytes());
        out.push(0);
    }
    out
}

/// Runs a search over a table of processes, and counts the argument blocks read.
fn run(mut scan: ProcessScan, table: &[(i32, &str, Option<Vec<u8>>)]) -> (ProcessScan, usize) {
    let mut read = 0;
    loop {
        match scan.question() {
            ScanQuestion::Nothing => return (scan, read),
            ScanQuestion::Name(pid) => {
                let row = table.iter().find(|r| r.0 == pid);
                scan.answer(row.map(|r| r.1.as_bytes().to_vec()));
            }
            ScanQuestion::Arguments(pid) => {
                read += 1;
                let row = table.iter().find(|r| r.0 == pid);
                scan.answer(row.and_then(|r| r.2.clone()));
            }
        }
    }
}

#[test]
fn case_is_ignored_in_ascii_only() {
    assert!(eq_ignore_ascii_case(b"uNiTy", b"Unity"));
    assert!(!eq_ignore_ascii_case(b"Unity", b"Unity2"));
    assert!(eq_ignore_ascii_case(b"", b""));
    for a in 0..=255u8 {
        for b in 0..=255u8 {
            assert_eq!(eq_ignore_ascii_case(&[a], &[b]), a.eq_ignore_ascii_case(&b));
        }
    }
}

#[test]
fn substrings() {
    assert!(memmem_ci(b"", b""));
    assert!(memmem_ci(b"abc", b""));
    assert!(!memmem_ci(b"", b"a"));
    assert!(memmem_ci(b"xxABC", b"abc"));
    assert!(memmem_ci(b"abcxx", b"ABC"));
    assert!(!memmem_ci(b"ab", b"abc"));
    assert!(!memmem_ci(b"abd", b"abc"));
    assert!(memmem_ci(b"aab", b"AB"));
}

#[test]
fn room_for_pids() {
    assert_eq!(pid_capacity(0), None);
    assert_eq!(pid_capacity(-1), None);
    assert_eq!(pid_capacity(1), Some(65));
    assert_eq!(pid_capacity(i32::MAX), Some(i32::MAX as usize + 64));
}

#[test]
fn reported_pids_are_clamped() {
    assert!(listed_pids(vec![1, 2, 3], 0).is_empty());
    assert!(listed_pids(vec![1, 2, 3], -5).is_empty());
    assert_eq!(listed_pids(vec![1, 2, 3], 2), [1, 2]);
    assert_eq!(listed_pids(vec![1, 2, 3], 3), [1, 2, 3]);
    assert_eq!(listed_pids(vec![1, 2, 3], 400), [1, 2, 3]);
}

#[test]
fn search_finds_matching_processes_in_order() {
    let table = vec![
        (10, "Unity", Some(block(&["/x/Unity", "-projectPath", "/p/one"]))),
        (11, "zsh", Some(block(&["zsh", "Unity -projectPath /p/one"]))),
        (12, "UNITY", Some(block(&["/x/unity", "-PROJECTPATH", "/P/ONE"]))),
        (13, "Unity", None),
        (14, "", Some(block(&["Unity -projectPath /p/one"]))),
        (15, "Unity", Some(block(&["/x/Unity", "-projectPath", "/p/two"]))),
    ];
    let pids = vec![0, 10, -3, 11, 12, 13, 14, 99, 15, 0];
    let (scan, read) = run(find_processes("Unity -projectPath /p/one", pids.clone()), &table);
    // Only the processes with the editor's name had their arguments read.
    assert_eq!(read, 4);
    assert_eq!(scan.first_match(), Some(10));
    assert_eq!(scan.matches(), [10, 12]);

    let (scan, read) = run(find_process("Unity -projectPath /p/one", pids.clone()), &table);
    assert_eq!(read, 1);
    assert_eq!(scan.matches(), [10]);

    let (scan, _) = run(find_process("Unity -projectPath /p/three", pids), &table);
    assert_eq!(scan.first_match(), None);
}

#[test]
fn search_without_spaces_looks_at_one_name() {
    let table = vec![
        (5, "CodePatcherCLI", Some(block(&["/h/CodePatcherCLI", "--port", "1"]))),
        (6, "codepatchercli", Some(block(&["/h/codepatchercli"]))),
        (7, "Unity", Some(block(&["/x/Unity", "CodePatcherCLI"]))),
    ];
    let (scan, _) = run(find_processes("CodePatcherCLI", vec![7, 6, 5]), &table);
    assert_eq!(scan.matches(), [6, 5]);
}

#[test]
fn argument_count_is_not_searched() {
    let table = vec![(5, "a", Some(vec![b'a', b'a', b'a', b'a'])), (6, "a", Some(vec![0, 0, 0, 0, b'A']))];
    let (scan, _) = run(find_processes("a", vec![5, 6]), &table);
    assert_eq!(scan.matches(), [6]);
}

#[test]
fn empty_needle_matches_no_unnamed_process() {
    let table = vec![(5, "", Some(block(&["x"])))];
    let (scan, read) = run(find_processes("", vec![5]), &table);
    assert_eq!(read, 0);
    assert!(scan.matches().is_empty());
}

#[test]
fn no_processes_no_questions() {
    assert_eq!(find_process("x", vec![]).question(), ScanQuestion::Nothing);
    assert_eq!(find_process("x", vec![0, -1]).question(), ScanQuestion::Nothing);
}

#[test]
fn liveness_of_a_process() {
    let unity = b"unity".to_vec();
    let other = b"Unity Hub".to_vec();
    let unknown: Vec<u8> = vec![];
    assert_eq!(is_unity_alive(0, None, None), Liveness::Dead);
    assert_eq!(is_unity_alive(-4, Some(0), Some(&unity)), Liveness::Dead);
    assert_eq!(is_unity_alive(4, None, None), Liveness::Signal);
    assert_eq!(is_unity_alive(4, Some(-1), None), Liveness::Dead);
    assert_eq!(is_unity_alive(4, Some(0), None), Liveness::Name);
    assert_eq!(is_unity_alive(4, Some(0), Some(&unity)), Liveness::Alive);
    assert_eq!(is_unity_alive(4, Some(0), Some(&other)), Liveness::Dead);
    assert_eq!(is_unity_alive(4, Some(0), Some(&unknown)), Liveness::Dead);
}

#[test]
fn exit_codes() {
    assert_eq!(waitpid_exit(0), 0);
    assert_eq!(waitpid_exit(1 << 8), 1);
    assert_eq!(waitpid_exit(255 << 8), 255);
    // Ended by a signal.
    assert_eq!(waitpid_exit(15), -1);
    assert_eq!(waitpid_exit(9), -1);
    // Stopped.
    assert_eq!(waitpid_exit(0x137f), -1);
}

#[test]
fn started_editor_is_found() {
    let unity = unity_path("6000.2.7f2");
    for mode in [SpawnMode::Detached, SpawnMode::BatchSync] {
        let plan = spawn_unity(&unity, "/p/é x", "/p/é x/Logs/l.log", mode);
        let args: Vec<&str> = plan.argv.iter().map(|a| a.as_str()).collect();
        let table = vec![(5, "Unity", Some(block(&["/x/Unity"]))), (8, "Unity", Some(block(&args)))];
        let (scan, _) = run(find_editor("/p/é x", vec![5, 8]), &table);
        assert_eq!(scan.first_match(), Some(8));
        let (scan, _) = run(find_editor("/q", vec![5, 8]), &table);
        assert_eq!(scan.first_match(), None);
    }
}

#[test]
fn editor_of_a_longer_path_is_not_taken() {
    let other = vec![(77, "Unity", Some(block(&["Unity", "-projectPath", "/w/game2"])))];
    let (scan, _) = run(find_editor("/w/game", vec![77]), &other);
    assert_eq!(scan.first_match(), None);
    // A plain search for a text does take it.
    let (scan, _) = run(find_process("Unity -projectPath /w/game", vec![77]), &other);
    assert_eq!(scan.first_match(), Some(77));

    let table = vec![
        (1, "Unity", Some(block(&["/x/Unity", "-projectPath", "/w/game two"]))),
        (2, "Unity", Some(block(&["/x/Unity", "-projectPath", "/w/game/sub", "-x"]))),
        (3, "unity", Some(block(&["/x/Unity", "-projectpath", "/w/Game", "-logFile", "/l"]))),
        (4, "Unity", Some(block(&["/x/Unity", "-projectPath", "/w/game"]))),
    ];
    let (scan, _) = run(find_editor("/w/game", vec![1, 2, 3, 4]), &table);
    assert_eq!(scan.matches(), [3]);
    let (scan, _) = run(find_editor("/w/game two", vec![4, 3, 2, 1]), &table);
    assert_eq!(scan.matches(), [1]);
    // Two arguments are not one path with a space in it.
    let (scan, _) = run(find_editor("/w/game/sub -x", vec![1, 2, 3, 4]), &table);
    assert_eq!(scan.first_match(), None);
}

#[test]
fn path_may_go_on_in_place() {
    for same in ["/w/game/", "/w/game//", "/W/Game/", "/w/game/.", "/w/game/./", "/w/game/.//."] {
        let table = vec![(9, "Unity", Some(block(&["Unity", "-projectPath", same, "-x"])))];
        let (scan, _) = run(find_editor("/w/game", vec![9]), &table);
        assert_eq!(scan.first_match(), Some(9), "{same}");
    }
    for other in ["/w/game.", "/w/game/..", "/w/game/.x", "/w/game/x/", "/w/game./", "/w/game/./x"] {
        let table = vec![(9, "Unity", Some(block(&["Unity", "-projectPath", other, "-x"])))];
        let (scan, _) = run(find_editor("/w/game", vec![9]), &table);
        assert_eq!(scan.first_match(), None, "{other}");
    }
}

#[test]
fn path_may_end_the_block() {
    let mut open = block(&["Unity", "-projectPath", "/w/game"]);
    open.pop();
    let table = vec![(9, "Unity", Some(open))];
    let (scan, _) = run(find_editor("/w/game", vec![9]), &table);
    assert_eq!(scan.first_match(), Some(9));
}
