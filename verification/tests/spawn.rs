use unity_launcher::spawn::{
    auth_command, auth_failure, shell, shell_args, shell_result, spawn_capture, spawn_result,
    spawn_unity, ShellOutput, SpawnMode, SpawnReply, Stream, SHELL,
};

#[test]
fn detached_editor() {
    let plan = spawn_unity("/u/Unity", "/p", "/p/Logs/l.log", SpawnMode::Detached);
    assert_eq!(plan.program, "/u/Unity");
    assert_eq!(
        plan.argv,
        ["/u/Unity", "-projectPath", "/p", "-disable-assembly-updater", "-logFile", "/p/Logs/l.log"]
    );
    assert_eq!(plan.variable, ("MONO_CRASH_NOFILE".to_string(), "1".to_string()));
    assert_eq!(plan.silenced, [Stream::Input, Stream::Output, Stream::Error]);
}

#[test]
fn headless_editor_does_without_graphics() {
    let plan = spawn_unity("/u/Unity", "/p", "/l", SpawnMode::BatchSync);
    assert_eq!(
        plan.argv,
        [
            "/u/Unity",
            "-projectPath",
            "/p",
            "-disable-assembly-updater",
            "-logFile",
            "/l",
            "-batchmode",
            "-nographics"
        ]
    );
    assert!(plan.silenced.is_empty());
}

#[test]
fn results_of_a_start() {
    assert_eq!(spawn_result(SpawnReply::Returned { code: 0, pid: 77 }).unwrap(), 77);
    let e = spawn_result(SpawnReply::Returned { code: 2, pid: 0 }).unwrap_err();
    assert_eq!(e.message, "Failed to spawn Unity");
    assert_eq!(e.detail.as_deref(), Some("posix_spawn returned 2"));
    let e = spawn_result(SpawnReply::NotPrepared).unwrap_err();
    assert_eq!(e.message, "posix_spawn_file_actions_init failed");
    assert_eq!(e.detail, None);
}

#[test]
fn captured_program() {
    assert_eq!(spawn_capture("/usr/bin/printenv", &["HOME"]), ["/usr/bin/printenv", "HOME"]);
    assert_eq!(spawn_capture("/x", &[]), ["/x"]);
}

#[test]
fn shell_commands() {
    assert_eq!(SHELL, "/bin/zsh");
    assert_eq!(shell_args("echo hi"), ["-c", "echo hi"]);
}

#[test]
fn shell_joins_both_streams() {
    let run = ShellOutput {
        stdout: b"out\n".to_vec(),
        stderr: "é".as_bytes().to_vec(),
        code: Some(3),
    };
    let r = shell(Some(run), Some("/l/x.log".to_string()));
    assert_eq!(r.result.output, "out\né");
    assert_eq!(r.result.exit, 3);
    assert_eq!(r.transcript.as_deref(), Some("/l/x.log"));
}

#[test]
fn shell_replaces_what_is_no_text() {
    let run = ShellOutput { stdout: vec![b'a', 0xff, b'b'], stderr: vec![], code: None };
    let r = shell(Some(run), None);
    assert_eq!(r.result.output, "a\u{fffd}b");
    assert_eq!(r.result.exit, -1);
    assert_eq!(r.transcript, None);
}

#[test]
fn shell_that_does_not_run() {
    let r = shell(None, Some("/l/x.log".to_string()));
    assert_eq!(r.result.output, "");
    assert_eq!(r.result.exit, -1);
    assert_eq!(r.transcript, None);
    let r = shell_result("a", "b", Some(0));
    assert_eq!((r.output.as_str(), r.exit), ("ab", 0));
}

#[test]
fn hook_is_run_with_the_editor() {
    assert_eq!(auth_command("/u/Unity", "/c/auth.sh"), "UNITY='/u/Unity' '/c/auth.sh'");
    assert_eq!(
        auth_command("/u/Unity", "/home/o'brien/a b/auth.sh"),
        "UNITY='/u/Unity' '/home/o'\\''brien/a b/auth.sh'"
    );
}

#[test]
fn errors_of_the_hook_are_surfaced() {
    let e = auth_failure("starting\nERROR: no user \n ERROR: not this\nERROR: and no password\nERROR: third\n");
    assert_eq!(e.message, "no user");
    assert_eq!(e.detail.as_deref(), Some("and no password\nthird"));
    let e = auth_failure("ERROR: one\nERROR: two\n");
    assert_eq!((e.message.as_str(), e.detail.as_deref()), ("one", Some("two")));
    let e = auth_failure("ERROR: one\r\n");
    assert_eq!(e.message, "one");
    assert_eq!(e.detail, None);
    let e = auth_failure("quiet");
    assert_eq!(e.message, "Auth hook failed");
    assert_eq!(e.detail, None);
}
