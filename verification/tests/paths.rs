use std::path::Path;

use unity_launcher::paths::{
    ancestors, auth_log, auth_script_path, editor_needle, join, launch_log, logs_dir, moved_backup,
    pid_dir, pid_file, project_candidates, project_path, recorded_pid, scene_backup, unity_path,
    unity_version, version_file, ProjectSearch,
};
use unity_launcher::text::integer_text;

#[test]
fn unity_version_parses_typical_file() {
    let contents = "m_EditorVersion: 6000.2.7f2\nm_EditorVersionWithRevision: 6000.2.7f2 (abc)\n";
    assert_eq!(unity_version(Some(contents)).unwrap(), "6000.2.7f2");
}

#[test]
fn unity_version_trims_surrounding_whitespace() {
    assert_eq!(unity_version(Some("m_EditorVersion:    6000.2.7f2   \n")).unwrap(), "6000.2.7f2");
}

#[test]
fn unity_version_errors_when_file_missing() {
    let err = unity_version(None).unwrap_err();
    assert_eq!(err.message, "Could not read Unity version");
    assert_eq!(err.detail.as_deref(), Some("ProjectSettings/ProjectVersion.txt"));
}

#[test]
fn unity_version_errors_when_marker_line_missing() {
    let err = unity_version(Some("something-else: foo\n")).unwrap_err();
    assert_eq!(err.message, "Could not parse Unity version");
    assert_eq!(err.detail.as_deref(), Some("m_EditorVersion: line missing"));
}

#[test]
fn first_version_line_counts_and_indented_ones_do_not() {
    let contents = " m_EditorVersion: 1\r\nm_EditorVersion: 2\r\nm_EditorVersion: 3";
    assert_eq!(unity_version(Some(contents)).unwrap(), "2");
    assert_eq!(unity_version(Some("m_EditorVersion:")).unwrap(), "");
}

#[test]
fn editor_of_a_version() {
    assert_eq!(
        unity_path("6000.2.7f2"),
        "/Applications/Unity/Hub/Editor/6000.2.7f2/Unity.app/Contents/MacOS/Unity"
    );
}

#[test]
fn joining_is_that_of_paths() {
    for base in ["", "/", "a", "/a/b", "a/", "a//", "."] {
        for part in ["x", "x/y", "/x", "", ".config", "Temp/.unity-launcher.pid"] {
            let expected = Path::new(base).join(part);
            assert_eq!(join(base, part), expected.to_str().unwrap(), "{base:?} {part:?}");
        }
    }
}

#[test]
fn ancestors_are_those_of_paths() {
    for p in ["", "/", "a", "/a/b/c", "a/b", "/a//b/", "/a/./b/..", "./a", "é/ü"] {
        let expected: Vec<&str> = Path::new(p).ancestors().map(|a| a.to_str().unwrap()).collect();
        assert_eq!(ancestors(p), expected, "{p:?}");
    }
}

#[test]
fn candidates_around_executable_come_first() {
    assert_eq!(
        project_candidates(Some("/x/bin"), Some("/y")),
        ["/x/bin", "/x", "/", "/y", "/"]
    );
    assert_eq!(project_candidates(None, Some("/y")), ["/y", "/"]);
    assert_eq!(project_candidates(Some("/x"), None), ["/x", "/"]);
    assert!(project_candidates(None, None).is_empty());
}

/// Searches for the project where these files exist.
fn search(candidates: &Vec<String>, files: &[&str]) -> Result<String, String> {
    let mut probed: Vec<bool> = Vec::new();
    loop {
        match project_path(candidates, &probed) {
            ProjectSearch::Probe(f) => probed.push(files.contains(&f.as_str())),
            ProjectSearch::Found(p) => return Ok(p),
            ProjectSearch::Missing(e) => {
                assert_eq!(
                    e.detail.as_deref(),
                    Some("ProjectSettings/ProjectVersion.txt not found in any ancestor of the executable or cwd")
                );
                return Err(e.message);
            }
        }
    }
}

#[test]
fn innermost_project_wins_and_executable_before_cwd() {
    let c = project_candidates(Some("/g/p/foo.app/Contents/MacOS/unity-launcher"), Some("/h/q/sub"));
    let p = "/g/p/ProjectSettings/ProjectVersion.txt";
    let outer = "/g/ProjectSettings/ProjectVersion.txt";
    let q = "/h/q/ProjectSettings/ProjectVersion.txt";
    assert_eq!(search(&c, &[p, outer, q]).unwrap(), "/g/p");
    assert_eq!(search(&c, &[outer, q]).unwrap(), "/g");
    assert_eq!(search(&c, &[q]).unwrap(), "/h/q");
    assert_eq!(search(&c, &[]).unwrap_err(), "Not inside a Unity project");
    assert_eq!(search(&vec![], &[p]).unwrap_err(), "Not inside a Unity project");
}

#[test]
fn files_of_a_project() {
    assert_eq!(version_file("/p"), "/p/ProjectSettings/ProjectVersion.txt");
    assert_eq!(pid_file("/p"), "/p/Temp/.unity-launcher.pid");
    assert_eq!(pid_dir("/p"), "/p/Temp");
    assert_eq!(Path::new(&pid_file("/p")).parent().unwrap().to_str().unwrap(), pid_dir("/p"));
    assert_eq!(logs_dir("/p"), "/p/Logs");
    assert_eq!(launch_log("/p", "S"), "/p/Logs/unity-S.log");
    assert_eq!(auth_log("/p", "S"), "/p/Logs/unity-auth-S.log");
    assert_eq!(scene_backup("/p"), "/p/Temp/__Backupscenes");
    assert_eq!(moved_backup("/p", "S"), "/p/Temp/__Backupscenes.S");
    assert_eq!(editor_needle("/p"), "Unity -projectPath /p");
}

#[test]
fn auth_hook() {
    assert_eq!(auth_script_path(Some("/c"), Some("/home/u")), "/c/unity-launcher/auth.sh");
    assert_eq!(auth_script_path(None, Some("/home/u")), "/home/u/.config/unity-launcher/auth.sh");
    assert_eq!(auth_script_path(None, None), ".config/unity-launcher/auth.sh");
    assert_eq!(auth_script_path(Some(""), Some("/home/u")), "unity-launcher/auth.sh");
}

#[test]
fn recorded_pids() {
    assert_eq!(recorded_pid(None), None);
    assert_eq!(recorded_pid(Some("")), None);
    assert_eq!(recorded_pid(Some(" 4711\n")), Some(4711));
    assert_eq!(recorded_pid(Some("12x")), None);
    assert_eq!(recorded_pid(Some("99999999999")), None);
    assert_eq!(recorded_pid(Some("-1")), Some(-1));
    for pid in [1, 4711, i32::MAX, -7] {
        assert_eq!(recorded_pid(Some(&integer_text(pid))), Some(pid));
    }
}
