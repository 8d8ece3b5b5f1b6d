use unity_launcher::session::{
    Command, Effect, Reply, Session, Settings, POLL_INTERVAL_MS, STARTUP_TIMEOUT_MS,
};
use unity_launcher::spawn::{SpawnMode, SpawnReply};

type Fx = Effect<String>;
type Re = Reply<String>;

fn s(t: &str) -> String {
    t.to_string()
}

fn settings() -> Settings<String> {
    Settings {
        project: s("/p"),
        batchmode: false,
        no_focus: false,
        auth_script: s("/c/auth.sh"),
        home: s("/home/u"),
    }
}

/// Runs a command; `answer` says what comes of each effect that is no mere deed.
fn run(command: Command<String>, settings: Settings<String>, mut answer: impl FnMut(&Fx, usize) -> Option<Re>) -> Vec<Fx> {
    let (mut session, mut effect) = Session::run(command, settings);
    let mut done: Vec<Fx> = Vec::new();
    loop {
        let n = done.len();
        let reply = answer(&effect, n);
        let over = matches!(effect, Effect::Succeed | Effect::Fail { .. });
        done.push(effect);
        if over {
            return done;
        }
        let (next, e) = session.step(reply.unwrap_or(Reply::Done));
        session = next;
        effect = e;
    }
}

/// A system on which nothing runs and everything works.
fn quiet(effect: &Fx) -> Option<Re> {
    Some(match effect {
        Effect::ReadFile(f) if f == "/p/ProjectSettings/ProjectVersion.txt" => {
            Reply::Contents(Some(s("m_EditorVersion: 6000.2.7f2\n")))
        }
        Effect::ReadFile(_) => Reply::Contents(None),
        Effect::Exists(_) => Reply::Flag(false),
        Effect::CheckAlive(_) => Reply::Flag(true),
        Effect::FindEditor(_) => Reply::Process(None),
        Effect::FindProcesses(_) => Reply::Processes(vec![]),
        Effect::Timestamp => Reply::Stamp(s("T")),
        Effect::Rename { .. } => Reply::Moved(None),
        Effect::Spawn { .. } => Reply::Spawned(SpawnReply::Returned { code: 0, pid: 77 }),
        Effect::Wait(_) => Reply::Exit(0),
        Effect::Shell { .. } => Reply::Shell { output: s(""), exit: 0 },
        Effect::Capture { .. } => Reply::Captured(s("")),
        _ => return None,
    })
}

fn print(t: &str) -> Fx {
    Effect::Print(s(t))
}

fn write_pid(pid: &str) -> Fx {
    Effect::WriteFile { dir: s("/p/Temp"), file: s("/p/Temp/.unity-launcher.pid"), contents: s(pid) }
}

fn fail(message: &str, detail: Option<&str>) -> Fx {
    Effect::Fail { message: s(message), detail: detail.map(s) }
}

const UNITY: &str = "/Applications/Unity/Hub/Editor/6000.2.7f2/Unity.app/Contents/MacOS/Unity";

fn start(mode: SpawnMode) -> Vec<Fx> {
    vec![
        Effect::CreateDir(s("/p/Logs")),
        Effect::PruneLaunchLogs(s("/p/Logs")),
        Effect::Timestamp,
        print("Log: /p/Logs/unity-T.log"),
        Effect::Spawn { unity: s(UNITY), project: s("/p"), log: s("/p/Logs/unity-T.log"), mode },
    ]
}

fn search() -> Vec<Fx> {
    vec![
        Effect::ReadFile(s("/p/Temp/.unity-launcher.pid")),
        Effect::FindEditor(s("/p")),
    ]
}

fn to_start() -> Vec<Fx> {
    let mut all = vec![print("Project: /p")];
    all.extend(search());
    all.extend(vec![
        Effect::ReadFile(s("/p/ProjectSettings/ProjectVersion.txt")),
        print("Unity: 6000.2.7f2"),
        Effect::FindProcesses(s("CodePatcherCLI")),
        Effect::TerminateAll(vec![]),
    ]);
    all
}

#[test]
fn launch_starts_the_editor_and_sees_it_come_up() {
    let mut reads = 0;
    let done = run(Command::Launch, settings(), |e, _| match e {
        Effect::ReadFile(f) if f == "/p/Logs/unity-T.log" => {
            reads += 1;
            Some(Reply::Contents(match reads {
                1 => None,
                2 => Some(s("starting")),
                _ => Some(s("... Successfully updated license ...")),
            }))
        }
        _ => quiet(e),
    });
    let mut expected = to_start();
    expected.push(Effect::Exists(s("/p/Temp/__Backupscenes")));
    expected.extend(start(SpawnMode::Detached));
    let read = Effect::ReadFile(s("/p/Logs/unity-T.log"));
    expected.extend(vec![
        write_pid("77"),
        print("Launching Unity (pid 77)..."),
        Effect::Sleep(100),
        read.clone(),
        Effect::Sleep(100),
        read.clone(),
        Effect::CheckAlive(77),
        Effect::Sleep(100),
        read,
        print("Unity started."),
        Effect::Succeed,
    ]);
    assert_eq!(done, expected);
}

#[test]
fn launch_gives_up_watching_after_the_timeout() {
    let done = run(Command::Launch, settings(), |e, _| quiet(e));
    let slept: u64 = done.iter().map(|e| if let Effect::Sleep(ms) = e { *ms } else { 0 }).sum();
    assert_eq!(slept, STARTUP_TIMEOUT_MS);
    assert_eq!(done.iter().filter(|e| matches!(e, Effect::Sleep(_))).count() as u64, STARTUP_TIMEOUT_MS / POLL_INTERVAL_MS);
    assert_eq!(done[done.len() - 2..], [print("Timeout."), Effect::Succeed]);
}

#[test]
fn launch_focuses_a_running_editor() {
    let done = run(Command::Launch, settings(), |e, _| match e {
        Effect::ReadFile(_) => Some(Reply::Contents(Some(s("42\n")))),
        _ => quiet(e),
    });
    assert_eq!(
        done,
        vec![
            print("Project: /p"),
            Effect::ReadFile(s("/p/Temp/.unity-launcher.pid")),
            Effect::CheckAlive(42),
            write_pid("42"),
            Effect::Focus(42),
            print("Already running."),
            Effect::Succeed,
        ]
    );
    let still = Settings { no_focus: true, ..settings() };
    let done = run(Command::Launch, still, |e, _| match e {
        Effect::FindEditor(_) => Some(Reply::Process(Some(42))),
        _ => quiet(e),
    });
    let mut expected = vec![print("Project: /p")];
    expected.extend(search());
    expected.extend(vec![write_pid("42"), print("Already running."), Effect::Succeed]);
    assert_eq!(done, expected);
}

#[test]
fn stale_record_falls_back_to_the_process_list() {
    let done = run(Command::Focus, settings(), |e, _| match e {
        Effect::ReadFile(_) => Some(Reply::Contents(Some(s("42")))),
        Effect::CheckAlive(_) => Some(Reply::Flag(false)),
        Effect::FindEditor(_) => Some(Reply::Process(Some(43))),
        _ => quiet(e),
    });
    assert_eq!(
        done,
        vec![
            Effect::ReadFile(s("/p/Temp/.unity-launcher.pid")),
            Effect::CheckAlive(42),
            Effect::FindEditor(s("/p")),
            write_pid("43"),
            Effect::Focus(43),
            print("Focused Unity (pid 43)."),
            Effect::Succeed,
        ]
    );
}

#[test]
fn focus_without_an_editor_fails() {
    let done = run(Command::Focus, settings(), |e, _| quiet(e));
    let mut expected = search();
    expected.push(fail("Unity not running", Some("No live process found for /p")));
    assert_eq!(done, expected);
    // It is not affected by the wish to leave a running editor alone.
    let still = Settings { no_focus: true, ..settings() };
    let done = run(Command::Focus, still, |e, _| match e {
        Effect::FindEditor(_) => Some(Reply::Process(Some(43))),
        _ => quiet(e),
    });
    assert!(done.contains(&Effect::Focus(43)));
}

#[test]
fn quit_ends_the_editor_and_forgets_it() {
    let done = run(Command::Quit, settings(), |e, _| match e {
        Effect::FindEditor(_) => Some(Reply::Process(Some(43))),
        _ => quiet(e),
    });
    let mut expected = search();
    expected.extend(vec![
        Effect::Terminate(43),
        Effect::RemoveFile(s("/p/Temp/.unity-launcher.pid")),
        print("Sent SIGTERM to Unity (pid 43)."),
        Effect::Succeed,
    ]);
    assert_eq!(done, expected);
    let done = run(Command::Quit, settings(), |e, _| quiet(e));
    let mut expected = search();
    expected.extend(vec![
        Effect::RemoveFile(s("/p/Temp/.unity-launcher.pid")),
        print("Unity not running."),
        Effect::Succeed,
    ]);
    assert_eq!(done, expected);
}

#[test]
fn batch_mode_waits_for_the_editor() {
    let batch = Settings { batchmode: true, ..settings() };
    let done = run(Command::Launch, batch.clone(), |e, _| quiet(e));
    let mut expected = to_start();
    expected.push(print("[BATCHMODE] Pairing -nographics with -batchmode"));
    expected.extend(start(SpawnMode::BatchSync));
    expected.extend(vec![write_pid("77"), Effect::Wait(77), Effect::Succeed]);
    assert_eq!(done, expected);

    let done = run(Command::Launch, batch, |e, _| match e {
        Effect::Wait(_) => Some(Reply::Exit(3)),
        _ => quiet(e),
    });
    assert_eq!(*done.last().unwrap(), fail("Unity batchmode exited 3", Some("See /p/Logs/unity-T.log")));
}

#[test]
fn batch_mode_does_not_disturb_a_running_editor() {
    let batch = Settings { batchmode: true, ..settings() };
    let done = run(Command::Launch, batch, |e, _| match e {
        Effect::FindEditor(_) => Some(Reply::Process(Some(43))),
        _ => quiet(e),
    });
    let mut expected = vec![print("Project: /p")];
    expected.extend(search());
    expected.push(fail(
        "Unity already running",
        Some("Cannot launch batchmode while another instance holds the project lock (pid 43)"),
    ));
    assert_eq!(done, expected);
}

#[test]
fn missing_version_stops_a_launch() {
    let done = run(Command::Launch, settings(), |e, _| match e {
        Effect::ReadFile(_) => Some(Reply::Contents(None)),
        _ => quiet(e),
    });
    assert_eq!(
        *done.last().unwrap(),
        fail("Could not read Unity version", Some("ProjectSettings/ProjectVersion.txt"))
    );
    let done = run(Command::Launch, settings(), |e, _| match e {
        Effect::ReadFile(_) => Some(Reply::Contents(Some(s("x")))),
        _ => quiet(e),
    });
    assert_eq!(
        *done.last().unwrap(),
        fail("Could not parse Unity version", Some("m_EditorVersion: line missing"))
    );
}

#[test]
fn failed_start_is_reported() {
    let done = run(Command::Launch, settings(), |e, _| match e {
        Effect::Spawn { .. } => Some(Reply::Spawned(SpawnReply::Returned { code: 2, pid: 0 })),
        _ => quiet(e),
    });
    assert_eq!(*done.last().unwrap(), fail("Failed to spawn Unity", Some("posix_spawn returned 2")));
    assert!(!done.iter().any(|e| matches!(e, Effect::WriteFile { .. })));
    let done = run(Command::Launch, settings(), |e, _| match e {
        Effect::Spawn { .. } => Some(Reply::Spawned(SpawnReply::NotPrepared)),
        _ => quiet(e),
    });
    assert_eq!(*done.last().unwrap(), fail("posix_spawn_file_actions_init failed", None));
}

#[test]
fn leftover_helpers_are_ended_and_backups_moved() {
    let done = run(Command::Launch, settings(), |e, _| match e {
        Effect::FindProcesses(_) => Some(Reply::Processes(vec![5, 6])),
        Effect::Exists(f) if f == "/p/Temp/__Backupscenes" => Some(Reply::Flag(true)),
        Effect::Rename { .. } => Some(Reply::Moved(Some(s("no room")))),
        _ => quiet(e),
    });
    assert!(done.contains(&Effect::TerminateAll(vec![5, 6])));
    let at = done.iter().position(|e| matches!(e, Effect::Rename { .. })).unwrap();
    assert_eq!(
        done[at - 1..at + 3],
        [
            Effect::Timestamp,
            Effect::Rename { from: s("/p/Temp/__Backupscenes"), to: s("/p/Temp/__Backupscenes.T") },
            print("Warning: failed to move scene backup: no room"),
            Effect::CreateDir(s("/p/Logs")),
        ]
    );
}

fn dying(e: &Fx) -> Option<Re> {
    match e {
        Effect::ReadFile(f) if f == "/p/Logs/unity-T.log" => Some(Reply::Contents(Some(s("boom")))),
        Effect::CheckAlive(_) => Some(Reply::Flag(false)),
        _ => quiet(e),
    }
}

#[test]
fn early_end_without_a_hook_is_a_license_error() {
    let done = run(Command::Launch, settings(), |e, _| dying(e));
    assert_eq!(
        done[done.len() - 4..],
        [
            print("Unity exited during startup."),
            Effect::RemoveFile(s("/p/Temp/.unity-launcher.pid")),
            Effect::Exists(s("/c/auth.sh")),
            fail(
                "Unity license error",
                Some("Check Unity Hub auth, or install ~/.config/unity-launcher/auth.sh (just install-config)")
            ),
        ]
    );
}

#[test]
fn early_end_without_a_log_is_noticed_at_the_last_look() {
    let done = run(Command::Launch, settings(), |e, _| match e {
        Effect::CheckAlive(_) => Some(Reply::Flag(false)),
        _ => quiet(e),
    });
    let slept: u64 = done.iter().map(|e| if let Effect::Sleep(ms) = e { *ms } else { 0 }).sum();
    assert_eq!(slept, STARTUP_TIMEOUT_MS);
    let at = done.iter().rposition(|e| *e == Effect::Sleep(100)).unwrap();
    assert_eq!(
        done[at..at + 6],
        [
            Effect::Sleep(100),
            Effect::ReadFile(s("/p/Logs/unity-T.log")),
            Effect::CheckAlive(77),
            print("Unity exited during startup."),
            Effect::RemoveFile(s("/p/Temp/.unity-launcher.pid")),
            Effect::Exists(s("/c/auth.sh")),
        ]
    );
    assert!(matches!(done.last(), Some(Effect::Fail { .. })));
}

#[test]
fn marker_that_is_read_late_counts() {
    // The editor is gone all the time, and the log can be read at the last look only.
    let looks = STARTUP_TIMEOUT_MS / POLL_INTERVAL_MS;
    let mut seen = 0;
    let done = run(Command::Launch, settings(), |e, _| match e {
        Effect::ReadFile(f) if f == "/p/Logs/unity-T.log" => {
            seen += 1;
            let marker = s("Successfully updated license");
            Some(Reply::Contents(if seen == looks { Some(marker) } else { None }))
        }
        Effect::CheckAlive(_) => Some(Reply::Flag(false)),
        _ => quiet(e),
    });
    assert_eq!(done[done.len() - 2..], [print("Unity started."), Effect::Succeed]);
    assert!(!done.iter().any(|e| matches!(e, Effect::RemoveFile(_))));
}

#[test]
fn hook_runs_and_the_editor_is_started_again() {
    let done = run(Command::Launch, settings(), |e, _| match e {
        Effect::Exists(f) if f == "/c/auth.sh" => Some(Reply::Flag(true)),
        _ => dying(e),
    });
    let at = done.iter().position(|e| *e == Effect::Exists(s("/c/auth.sh"))).unwrap();
    let mut expected = vec![
        Effect::Exists(s("/c/auth.sh")),
        print("Running auth hook: /c/auth.sh"),
        Effect::PruneAuthLogs(s("/p/Logs")),
        Effect::Timestamp,
        Effect::Shell {
            command: format!("UNITY='{UNITY}' '/c/auth.sh'"),
            transcript: Some(s("/p/Logs/unity-auth-T.log")),
        },
        print("Relaunching..."),
    ];
    expected.extend(start(SpawnMode::Detached));
    expected.extend(vec![write_pid("77"), Effect::Succeed]);
    assert_eq!(done[at..], expected);
    assert_eq!(done.iter().filter(|e| matches!(e, Effect::Spawn { .. })).count(), 2);
}

#[test]
fn failed_hook_is_reported() {
    let done = run(Command::Launch, settings(), |e, _| match e {
        Effect::Exists(f) if f == "/c/auth.sh" => Some(Reply::Flag(true)),
        Effect::Shell { .. } => Some(Reply::Shell { output: s("ERROR: UNITY_USERNAME not set\n"), exit: 1 }),
        _ => dying(e),
    });
    assert_eq!(*done.last().unwrap(), fail("UNITY_USERNAME not set", None));
}

#[test]
fn unknown_subcommand_shows_the_usage() {
    let done = run(Command::Unknown(s("frob")), settings(), |e, _| quiet(e));
    assert_eq!(done, vec![Effect::Usage, fail("unknown subcommand: frob", None)]);
}

#[test]
fn diagnostic_shows_home_three_times() {
    let done = run(Command::DebugEnv, settings(), |e, _| match e {
        Effect::Shell { .. } => Some(Reply::Shell { output: s("/home/u\n"), exit: 0 }),
        Effect::Capture { .. } => Some(Reply::Captured(s("/home/u\n"))),
        _ => quiet(e),
    });
    assert_eq!(
        done,
        vec![
            print("self HOME=/home/u"),
            Effect::Shell { command: s("/usr/bin/printenv HOME"), transcript: None },
            print("shell HOME=/home/u"),
            Effect::Capture { program: s("/usr/bin/printenv"), arg: s("HOME") },
            print("spawn HOME=/home/u"),
            Effect::Succeed,
        ]
    );
    let bare = Settings { home: s(""), ..settings() };
    let done = run(Command::DebugEnv, bare, |e, _| quiet(e));
    assert_eq!(done[0], print("self HOME=<unset>"));
    assert_eq!(done[4], print("spawn HOME=<unset>"));
}

#[test]
fn longest_run_takes_its_steps_and_no_more() {
    // Every look at the log finds nothing until the last, then the editor is gone and the
    // hook runs; a backup is in the way and cannot be moved; the record is stale.
    let looks = STARTUP_TIMEOUT_MS / POLL_INTERVAL_MS;
    let mut seen = 0;
    let done = run(Command::Launch, settings(), |e, _| match e {
        Effect::ReadFile(f) if f == "/p/Temp/.unity-launcher.pid" => {
            Some(Reply::Contents(Some(s("42"))))
        }
        Effect::ReadFile(f) if f == "/p/Logs/unity-T.log" => {
            seen += 1;
            Some(Reply::Contents(Some(s("starting"))))
        }
        Effect::CheckAlive(77) => Some(Reply::Flag(seen < looks)),
        Effect::CheckAlive(_) => Some(Reply::Flag(false)),
        Effect::Exists(_) => Some(Reply::Flag(true)),
        Effect::Rename { .. } => Some(Reply::Moved(Some(s("no room")))),
        _ => quiet(e),
    });
    // The first effect, and one for each of the replies that the session takes.
    assert_eq!(done.len() as u64, 1 + 33 + 3 * looks);
    assert_eq!(*done.last().unwrap(), Effect::Succeed);
}
