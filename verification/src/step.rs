//! What a session does next.

use vstd::prelude::*;

use crate::paths;
use crate::session::{
    Attempt, Command, Effect, Reply, Session, Settings, Stage, Task, POLL_INTERVAL_MS,
    STARTUP_TIMEOUT_MS,
};
use crate::spawn::{self, SpawnMode};
use crate::text;

verus! {

/// A session in a stage, and the effect that it waits for.
pub type Turn = (Session<Seq<char>>, Effect<Seq<char>>);

/// What is said of `HOME` as `label` sees it.
pub open spec fn home_line(label: Seq<char>, value: Seq<char>) -> Seq<char> {
    label + " HOME="@ + (if value.len() == 0 {
        "<unset>"@
    } else {
        value
    })
}

/// How the editor of an attempt runs.
pub open spec fn attempt_mode(attempt: Attempt) -> SpawnMode {
    match attempt {
        Attempt::Batch => SpawnMode::BatchSync,
        Attempt::First | Attempt::Again => SpawnMode::Detached,
    }
}

/// How many looks a starting editor is given.
pub open spec fn startup_polls() -> u64 {
    STARTUP_TIMEOUT_MS / POLL_INTERVAL_MS
}

/// Whether a log with these contents, where it can be read, tells that the
/// editor has started.
pub open spec fn tells_of_start(contents: Option<Seq<char>>) -> bool {
    contents matches Some(c) && text::occurs_in(c, "Successfully updated license"@)
}

impl Session<Seq<char>> {
    /// The session in another stage, with the effect that it waits for.
    pub open spec fn goes(self, stage: Stage<Seq<char>>, effect: Effect<Seq<char>>) -> Turn {
        (Session { settings: self.settings, task: self.task, stage }, effect)
    }

    /// The session, failed.
    pub open spec fn fails(self, e: (Seq<char>, Option<Seq<char>>)) -> Turn {
        self.goes(Stage::Over, Effect::Fail { message: e.0, detail: e.1 })
    }

    /// The session, about to succeed with a last line.
    pub open spec fn closes(self, line: Seq<char>) -> Turn {
        self.goes(Stage::Closing, Effect::Print(line))
    }

    /// The project's pid file.
    pub open spec fn pid_path(self) -> Seq<char> {
        paths::joined(self.settings.project, paths::PID_FILE@)
    }

    /// Recording a process id in the pid file.
    pub open spec fn records(self, pid: i32) -> Effect<Seq<char>> {
        Effect::WriteFile {
            dir: paths::joined(self.settings.project, "Temp"@),
            file: self.pid_path(),
            contents: text::integer(pid as int),
        }
    }

    /// The session, looking for the project's editor among the processes.
    pub open spec fn scans(self) -> Turn {
        self.goes(Stage::Scan, Effect::FindEditor(self.settings.project))
    }

    /// The session, once it is known whether the editor runs.
    pub open spec fn resolves(self, running: Option<i32>) -> Turn {
        match (self.task, running) {
            (Task::Launch, Some(pid)) => if self.settings.batchmode {
                self.fails(
                    (
                        "Unity already running"@,
                        Some(
                            "Cannot launch batchmode while another instance holds the project lock (pid "@
                                + text::integer(pid as int) + ")"@,
                        ),
                    ),
                )
            } else {
                self.goes(Stage::Refresh(pid), self.records(pid))
            },
            (Task::Launch, None) => self.goes(
                Stage::Version,
                Effect::ReadFile(paths::joined(self.settings.project, paths::VERSION_FILE@)),
            ),
            (Task::Focus, Some(pid)) => self.goes(Stage::Refresh(pid), self.records(pid)),
            (Task::Focus, None) => self.fails(
                (
                    "Unity not running"@,
                    Some("No live process found for "@ + self.settings.project),
                ),
            ),
            (Task::Quit, Some(pid)) => self.goes(Stage::Ending(pid), Effect::Terminate(pid)),
            (Task::Quit, None) => self.goes(
                Stage::Clearing(None),
                Effect::RemoveFile(self.pid_path()),
            ),
        }
    }

    /// The session, about to start the editor `unity`.
    pub open spec fn prepares(self, unity: Seq<char>, attempt: Attempt) -> Turn {
        self.goes(
            Stage::LogDir(unity, attempt),
            Effect::CreateDir(paths::log_dir(self.settings.project)),
        )
    }

    /// The session, watching a starting editor that it has looked at `polls`
    /// times.
    pub open spec fn watches(self, unity: Seq<char>, log: Seq<char>, pid: i32, polls: u64) -> Turn {
        if polls < startup_polls() {
            self.goes(Stage::Slept { unity, log, pid, polls }, Effect::Sleep(POLL_INTERVAL_MS))
        } else {
            self.closes("Timeout."@)
        }
    }

    /// The session, with the editor of the version file's contents.
    pub open spec fn versions(self, contents: Option<Seq<char>>) -> Turn {
        match paths::version_in(contents) {
            Ok(ver) => self.goes(
                Stage::Versioned(paths::editor(ver)),
                Effect::Print("Unity: "@ + ver),
            ),
            Err(e) => self.fails(e),
        }
    }

    /// The session, after the system's reply to a start.
    pub open spec fn starts(
        self,
        unity: Seq<char>,
        log: Seq<char>,
        attempt: Attempt,
        reply: spawn::SpawnReply,
    ) -> Turn {
        match spawn::spawned(reply) {
            Err(e) => self.fails(e),
            Ok(pid) => self.goes(
                Stage::Recorded { unity, log, pid, attempt },
                self.records(pid),
            ),
        }
    }
}

/// What a session is about.
#[derive(Clone, Copy, Debug, PartialEq, Eq, Structural)]
pub enum Phase {
    /// Whether the editor runs.
    Find,
    /// The editor runs, or the command is done.
    Running,
    /// The editor does not run, and is to be launched.
    Launch,
    /// A start.
    Start,
    /// The first seconds of a detached editor.
    Watch,
    /// The auth hook, after an early end.
    Hook,
    /// The other commands.
    Other,
    /// Nothing any more.
    Over,
}

/// What a session in this stage is about.
pub open spec fn phase_of(stage: Stage<Seq<char>>) -> Phase {
    match stage {
        Stage::Banner | Stage::PidFile | Stage::Probe(_) | Stage::Scan => Phase::Find,
        Stage::Refresh(_) | Stage::Focusing(_) | Stage::Ending(_) | Stage::Clearing(_)
        | Stage::Closing => Phase::Running,
        Stage::Version | Stage::Versioned(_) | Stage::Helpers(_) | Stage::Swept(_)
        | Stage::BatchBanner(_) | Stage::Backup(_) | Stage::BackupStamp(_)
        | Stage::BackupMoved(_) | Stage::Warned(_) => Phase::Launch,
        Stage::LogDir(..) | Stage::LogPruned(..) | Stage::LogStamp(..)
        | Stage::LogNamed { .. } | Stage::Spawning { .. } | Stage::Waiting(_)
        | Stage::Recorded { .. } => Phase::Start,
        Stage::Announced { .. } | Stage::Slept { .. } | Stage::LogRead { .. }
        | Stage::Watched { .. } => Phase::Watch,
        Stage::Exited(_) | Stage::ExitCleared(_) | Stage::Hook(_) | Stage::HookBanner(_)
        | Stage::HookPruned(_) | Stage::HookStamp(_) | Stage::HookRun(_)
        | Stage::Relaunching(_) => Phase::Hook,
        Stage::UsageShown(_) | Stage::DebugSelf | Stage::DebugShell | Stage::DebugShellShown
        | Stage::DebugCapture => Phase::Other,
        Stage::Over => Phase::Over,
    }
}

fn phase(stage: &Stage<String>) -> (r: Phase)
    ensures
        r == phase_of(stage@),
{
    match stage {
        Stage::Banner | Stage::PidFile | Stage::Probe(_) | Stage::Scan => Phase::Find,
        Stage::Refresh(_) | Stage::Focusing(_) | Stage::Ending(_) | Stage::Clearing(_)
        | Stage::Closing => Phase::Running,
        Stage::Version | Stage::Versioned(_) | Stage::Helpers(_) | Stage::Swept(_)
        | Stage::BatchBanner(_) | Stage::Backup(_) | Stage::BackupStamp(_)
        | Stage::BackupMoved(_) | Stage::Warned(_) => Phase::Launch,
        Stage::LogDir(..) | Stage::LogPruned(..) | Stage::LogStamp(..)
        | Stage::LogNamed { .. } | Stage::Spawning { .. } | Stage::Waiting(_)
        | Stage::Recorded { .. } => Phase::Start,
        Stage::Announced { .. } | Stage::Slept { .. } | Stage::LogRead { .. }
        | Stage::Watched { .. } => Phase::Watch,
        Stage::Exited(_) | Stage::ExitCleared(_) | Stage::Hook(_) | Stage::HookBanner(_)
        | Stage::HookPruned(_) | Stage::HookStamp(_) | Stage::HookRun(_)
        | Stage::Relaunching(_) => Phase::Hook,
        Stage::UsageShown(_) | Stage::DebugSelf | Stage::DebugShell | Stage::DebugShellShown
        | Stage::DebugCapture => Phase::Other,
        Stage::Over => Phase::Over,
    }
}

/// Whether a session in this stage can go on with this reply.
pub open spec fn expects(stage: Stage<Seq<char>>, reply: Reply<Seq<char>>) -> bool {
    match stage {
        Stage::PidFile | Stage::Version | Stage::LogRead { .. } => reply is Contents,
        Stage::Probe(_) | Stage::Backup(_) | Stage::Watched { .. }
        | Stage::Hook(_) => reply is Flag,
        Stage::Scan => reply is Process,
        Stage::Helpers(_) => reply is Processes,
        Stage::BackupStamp(_) | Stage::LogStamp(..) | Stage::HookStamp(_) => reply is Stamp,
        Stage::BackupMoved(_) => reply is Moved,
        Stage::Spawning { .. } => reply is Spawned,
        Stage::Waiting(_) => reply is Exit,
        Stage::HookRun(_) | Stage::DebugShell => reply is Shell,
        Stage::DebugCapture => reply is Captured,
        Stage::Over => false,
        _ => reply is Done,
    }
}

impl Session<Seq<char>> {
    /// The session, finding out whether the editor runs, once the effect that
    /// it waits for has come to `reply`.
    pub open spec fn resolve_next(self, reply: Reply<Seq<char>>) -> Turn {
        match (self.stage, reply) {
            (Stage::Banner, _) => self.goes(Stage::PidFile, Effect::ReadFile(self.pid_path())),
            (Stage::PidFile, Reply::Contents(c)) => match paths::recorded(c) {
                Some(pid) => self.goes(Stage::Probe(pid), Effect::CheckAlive(pid)),
                None => self.scans(),
            },
            (Stage::Probe(pid), Reply::Flag(alive)) => if alive {
                self.resolves(Some(pid))
            } else {
                self.scans()
            },
            (Stage::Scan, Reply::Process(pid)) => self.resolves(pid),
            _ => self.goes(Stage::Over, Effect::Succeed),
        }
    }

    /// The session, dealing with a running editor or closing, once the effect
    /// that it waits for has come to `reply`.
    pub open spec fn running_next(self, reply: Reply<Seq<char>>) -> Turn {
        match (self.stage, reply) {
            (Stage::Refresh(pid), _) => if self.task == Task::Launch && self.settings.no_focus {
                self.closes("Already running."@)
            } else {
                self.goes(Stage::Focusing(pid), Effect::Focus(pid))
            },
            (Stage::Focusing(pid), _) => if self.task == Task::Launch {
                self.closes("Already running."@)
            } else {
                self.closes("Focused Unity (pid "@ + text::integer(pid as int) + ")."@)
            },
            (Stage::Ending(pid), _) => self.goes(
                Stage::Clearing(Some(pid)),
                Effect::RemoveFile(self.pid_path()),
            ),
            (Stage::Clearing(None), _) => self.closes("Unity not running."@),
            (Stage::Clearing(Some(pid)), _) => self.closes(
                "Sent SIGTERM to Unity (pid "@ + text::integer(pid as int) + ")."@,
            ),
            (Stage::Closing, _) => self.goes(Stage::Over, Effect::Succeed),
            _ => self.goes(Stage::Over, Effect::Succeed),
        }
    }

    /// The session, getting ready to launch, once the effect that it waits for
    /// has come to `reply`.
    pub open spec fn launch_next(self, reply: Reply<Seq<char>>) -> Turn {
        let project = self.settings.project;
        match (self.stage, reply) {
            (Stage::Version, Reply::Contents(c)) => self.versions(c),
            (Stage::Versioned(unity), _) => self.goes(
                Stage::Helpers(unity),
                Effect::FindProcesses("CodePatcherCLI"@),
            ),
            (Stage::Helpers(unity), Reply::Processes(pids)) => self.goes(
                Stage::Swept(unity),
                Effect::TerminateAll(pids),
            ),
            (Stage::Swept(unity), _) => if self.settings.batchmode {
                self.goes(
                    Stage::BatchBanner(unity),
                    Effect::Print("[BATCHMODE] Pairing -nographics with -batchmode"@),
                )
            } else {
                self.goes(
                    Stage::Backup(unity),
                    Effect::Exists(paths::joined(project, "Temp/__Backupscenes"@)),
                )
            },
            (Stage::BatchBanner(unity), _) => self.prepares(unity, Attempt::Batch),
            (Stage::Backup(unity), Reply::Flag(there)) => if there {
                self.goes(Stage::BackupStamp(unity), Effect::Timestamp)
            } else {
                self.prepares(unity, Attempt::First)
            },
            (Stage::BackupStamp(unity), Reply::Stamp(stamp)) => self.goes(
                Stage::BackupMoved(unity),
                Effect::Rename {
                    from: paths::joined(project, "Temp/__Backupscenes"@),
                    to: paths::joined(project, "Temp/__Backupscenes."@ + stamp),
                },
            ),
            (Stage::BackupMoved(unity), Reply::Moved(why)) => match why {
                Some(e) => self.goes(
                    Stage::Warned(unity),
                    Effect::Print("Warning: failed to move scene backup: "@ + e),
                ),
                None => self.prepares(unity, Attempt::First),
            },
            (Stage::Warned(unity), _) => self.prepares(unity, Attempt::First),
            _ => self.goes(Stage::Over, Effect::Succeed),
        }
    }

    /// The session, starting the editor, once the effect that it waits for has
    /// come to `reply`.
    pub open spec fn start_next(self, reply: Reply<Seq<char>>) -> Turn {
        let project = self.settings.project;
        match (self.stage, reply) {
            (Stage::LogDir(unity, attempt), _) => self.goes(
                Stage::LogPruned(unity, attempt),
                Effect::PruneLaunchLogs(paths::log_dir(project)),
            ),
            (Stage::LogPruned(unity, attempt), _) => self.goes(
                Stage::LogStamp(unity, attempt),
                Effect::Timestamp,
            ),
            (Stage::LogStamp(unity, attempt), Reply::Stamp(stamp)) => {
                let log = paths::joined(paths::log_dir(project), paths::launch_log_name(stamp));
                self.goes(Stage::LogNamed { unity, log, attempt }, Effect::Print("Log: "@ + log))
            },
            (Stage::LogNamed { unity, log, attempt }, _) => self.goes(
                Stage::Spawning { unity, log, attempt },
                Effect::Spawn { unity, project, log, mode: attempt_mode(attempt) },
            ),
            (Stage::Spawning { unity, log, attempt }, Reply::Spawned(r)) => self.starts(
                unity,
                log,
                attempt,
                r,
            ),
            (Stage::Waiting(log), Reply::Exit(code)) => if code == 0 {
                self.goes(Stage::Over, Effect::Succeed)
            } else {
                self.fails(
                    ("Unity batchmode exited "@ + text::integer(code as int), Some("See "@ + log)),
                )
            },
            (Stage::Recorded { unity, log, pid, attempt }, _) => match attempt {
                Attempt::Batch => self.goes(Stage::Waiting(log), Effect::Wait(pid)),
                Attempt::First => self.goes(
                    Stage::Announced { unity, log, pid },
                    Effect::Print(
                        "Launching Unity (pid "@ + text::integer(pid as int) + ")..."@,
                    ),
                ),
                Attempt::Again => self.goes(Stage::Over, Effect::Succeed),
            },
            _ => self.goes(Stage::Over, Effect::Succeed),
        }
    }

    /// The session, watching a starting editor, once the effect that it waits
    /// for has come to `reply`.
    pub open spec fn watch_next(self, reply: Reply<Seq<char>>) -> Turn {
        match (self.stage, reply) {
            (Stage::Announced { unity, log, pid }, _) => self.watches(unity, log, pid, 0),
            (Stage::Slept { unity, log, pid, polls }, _) => self.goes(
                Stage::LogRead { unity, log, pid, polls },
                Effect::ReadFile(log),
            ),
            (Stage::LogRead { unity, log, pid, polls }, Reply::Contents(contents)) => {
                if tells_of_start(contents) {
                    self.closes("Unity started."@)
                } else if contents is None && polls + 1 < startup_polls() {
                    self.watches(unity, log, pid, (polls + 1) as u64)
                } else {
                    self.goes(Stage::Watched { unity, log, pid, polls }, Effect::CheckAlive(pid))
                }
            },
            (Stage::Watched { unity, log, pid, polls }, Reply::Flag(alive)) => if alive {
                self.watches(unity, log, pid, (polls + 1) as u64)
            } else {
                self.goes(
                    Stage::Exited(unity),
                    Effect::Print("Unity exited during startup."@),
                )
            },
            _ => self.goes(Stage::Over, Effect::Succeed),
        }
    }

    /// The session, recovering from an early end with the auth hook, once the
    /// effect that it waits for has come to `reply`.
    pub open spec fn auth_next(self, reply: Reply<Seq<char>>) -> Turn {
        let project = self.settings.project;
        match (self.stage, reply) {
            (Stage::Exited(unity), _) => self.goes(
                Stage::ExitCleared(unity),
                Effect::RemoveFile(self.pid_path()),
            ),
            (Stage::ExitCleared(unity), _) => self.goes(
                Stage::Hook(unity),
                Effect::Exists(self.settings.auth_script),
            ),
            (Stage::Hook(unity), Reply::Flag(there)) => if there {
                self.goes(
                    Stage::HookBanner(unity),
                    Effect::Print("Running auth hook: "@ + self.settings.auth_script),
                )
            } else {
                self.fails(
                    (
                        "Unity license error"@,
                        Some(
                            "Check Unity Hub auth, or install ~/.config/unity-launcher/auth.sh (just install-config)"@,
                        ),
                    ),
                )
            },
            (Stage::HookBanner(unity), _) => self.goes(
                Stage::HookPruned(unity),
                Effect::PruneAuthLogs(paths::log_dir(project)),
            ),
            (Stage::HookPruned(unity), _) => self.goes(Stage::HookStamp(unity), Effect::Timestamp),
            (Stage::HookStamp(unity), Reply::Stamp(stamp)) => self.goes(
                Stage::HookRun(unity),
                Effect::Shell {
                    command: spawn::hook_command(unity, self.settings.auth_script),
                    transcript: Some(
                        paths::joined(paths::log_dir(project), paths::auth_log_name(stamp)),
                    ),
                },
            ),
            (Stage::HookRun(unity), Reply::Shell { output, exit }) => if exit != 0 {
                self.fails(spawn::hook_failure(output))
            } else {
                self.goes(Stage::Relaunching(unity), Effect::Print("Relaunching..."@))
            },
            (Stage::Relaunching(unity), _) => self.prepares(unity, Attempt::Again),
            _ => self.goes(Stage::Over, Effect::Succeed),
        }
    }

    /// The session, answering anything but a command on the editor, once the
    /// effect that it waits for has come to `reply`.
    pub open spec fn other_next(self, reply: Reply<Seq<char>>) -> Turn {
        match (self.stage, reply) {
            (Stage::UsageShown(name), _) => self.fails(("unknown subcommand: "@ + name, None)),
            (Stage::DebugSelf, _) => self.goes(
                Stage::DebugShell,
                Effect::Shell { command: "/usr/bin/printenv HOME"@, transcript: None },
            ),
            (Stage::DebugShell, Reply::Shell { output, exit }) => self.goes(
                Stage::DebugShellShown,
                Effect::Print(home_line("shell"@, text::trimmed(output))),
            ),
            (Stage::DebugShellShown, _) => self.goes(
                Stage::DebugCapture,
                Effect::Capture { program: "/usr/bin/printenv"@, arg: "HOME"@ },
            ),
            (Stage::DebugCapture, Reply::Captured(output)) => self.closes(
                home_line("spawn"@, text::trimmed(output)),
            ),
            _ => self.goes(Stage::Over, Effect::Succeed),
        }
    }

    /// The session, once the effect that it waits for has come to `reply`.
    pub open spec fn next(self, reply: Reply<Seq<char>>) -> Turn {
        match phase_of(self.stage) {
            Phase::Find => self.resolve_next(reply),
            Phase::Running => self.running_next(reply),
            Phase::Launch => self.launch_next(reply),
            Phase::Start => self.start_next(reply),
            Phase::Watch => self.watch_next(reply),
            Phase::Hook => self.auth_next(reply),
            Phase::Other => self.other_next(reply),
            Phase::Over => self.goes(Stage::Over, Effect::Succeed),
        }
    }

    /// That a starting editor is not looked at more often than it is to be.
    pub open spec fn wf(self) -> bool {
        match self.stage {
            Stage::Slept { polls, .. } | Stage::LogRead { polls, .. } | Stage::Watched {
                polls,
                ..
            } => polls < startup_polls(),
            _ => true,
        }
    }

    /// A session that begins to carry out a command.
    pub open spec fn begun(command: Command<Seq<char>>, settings: Settings<Seq<char>>) -> Turn {
        let launch = Session { settings, task: Task::Launch, stage: Stage::Over };
        let focus = Session { settings, task: Task::Focus, stage: Stage::Over };
        let quit = Session { settings, task: Task::Quit, stage: Stage::Over };
        match command {
            Command::Launch => launch.goes(
                Stage::Banner,
                Effect::Print("Project: "@ + settings.project),
            ),
            Command::Focus => focus.goes(Stage::PidFile, Effect::ReadFile(focus.pid_path())),
            Command::Quit => quit.goes(Stage::PidFile, Effect::ReadFile(quit.pid_path())),
            Command::DebugEnv => launch.goes(
                Stage::DebugSelf,
                Effect::Print(home_line("self"@, settings.home)),
            ),
            Command::Unknown(name) => launch.goes(Stage::UsageShown(name), Effect::Usage),
        }
    }
}

// ---------------------------------------------------------------------------
// Doing it
// ---------------------------------------------------------------------------

/// A session of which only the settings and the task matter.
pub open spec fn bare(settings: Settings<Seq<char>>, task: Task) -> Session<Seq<char>> {
    Session { settings, task, stage: Stage::Over }
}

fn goes(
    settings: Settings<String>,
    task: Task,
    stage: Stage<String>,
    effect: Effect<String>,
) -> (r: (Session<String>, Effect<String>))
    ensures
        r@ == bare(settings@, task).goes(stage@, effect@),
{
    (Session { settings, task, stage }, effect)
}

fn fails(settings: Settings<String>, task: Task, message: String, detail: Option<String>) -> (r: (
    Session<String>,
    Effect<String>,
))
    ensures
        r@ == bare(settings@, task).fails((message@, detail.deep_view())),
{
    goes(settings, task, Stage::Over, Effect::Fail { message, detail })
}

fn closes(settings: Settings<String>, task: Task, line: String) -> (r: (
    Session<String>,
    Effect<String>,
))
    ensures
        r@ == bare(settings@, task).closes(line@),
{
    goes(settings, task, Stage::Closing, Effect::Print(line))
}

fn removes_pid(settings: Settings<String>, task: Task, stage: Stage<String>) -> (r: (
    Session<String>,
    Effect<String>,
))
    ensures
        r@ == bare(settings@, task).goes(
            stage@,
            Effect::RemoveFile(bare(settings@, task).pid_path()),
        ),
{
    let file = paths::pid_file(settings.project.as_str());
    goes(settings, task, stage, Effect::RemoveFile(file))
}

fn records(settings: Settings<String>, task: Task, stage: Stage<String>, pid: i32) -> (r: (
    Session<String>,
    Effect<String>,
))
    ensures
        r@ == bare(settings@, task).goes(stage@, bare(settings@, task).records(pid)),
{
    let dir = paths::pid_dir(settings.project.as_str());
    let file = paths::pid_file(settings.project.as_str());
    let contents = text::integer_text(pid);
    goes(settings, task, stage, Effect::WriteFile { dir, file, contents })
}

fn scans(settings: Settings<String>, task: Task) -> (r: (Session<String>, Effect<String>))
    ensures
        r@ == bare(settings@, task).scans(),
{
    let project = settings.project.clone();
    goes(settings, task, Stage::Scan, Effect::FindEditor(project))
}

fn resolves(settings: Settings<String>, task: Task, running: Option<i32>) -> (r: (
    Session<String>,
    Effect<String>,
))
    ensures
        r@ == bare(settings@, task).resolves(running),
{
    match (task, running) {
        (Task::Launch, Some(pid)) => if settings.batchmode {
            let detail = text::join3(
                "Cannot launch batchmode while another instance holds the project lock (pid ",
                text::integer_text(pid).as_str(),
                ")",
            );
            fails(settings, task, "Unity already running".to_owned(), Some(detail))
        } else {
            records(settings, task, Stage::Refresh(pid), pid)
        },
        (Task::Launch, None) => {
            let file = paths::version_file(settings.project.as_str());
            goes(settings, task, Stage::Version, Effect::ReadFile(file))
        },
        (Task::Focus, Some(pid)) => records(settings, task, Stage::Refresh(pid), pid),
        (Task::Focus, None) => {
            let detail = text::join2("No live process found for ", settings.project.as_str());
            fails(settings, task, "Unity not running".to_owned(), Some(detail))
        },
        (Task::Quit, Some(pid)) => goes(settings, task, Stage::Ending(pid), Effect::Terminate(pid)),
        (Task::Quit, None) => removes_pid(settings, task, Stage::Clearing(None)),
    }
}

fn prepares(settings: Settings<String>, task: Task, unity: String, attempt: Attempt) -> (r: (
    Session<String>,
    Effect<String>,
))
    ensures
        r@ == bare(settings@, task).prepares(unity@, attempt),
{
    let dir = paths::logs_dir(settings.project.as_str());
    goes(settings, task, Stage::LogDir(unity, attempt), Effect::CreateDir(dir))
}

fn watches(
    settings: Settings<String>,
    task: Task,
    unity: String,
    log: String,
    pid: i32,
    polls: u64,
) -> (r: (Session<String>, Effect<String>))
    ensures
        r@ == bare(settings@, task).watches(unity@, log@, pid, polls),
{
    if polls < STARTUP_TIMEOUT_MS / POLL_INTERVAL_MS {
        goes(
            settings,
            task,
            Stage::Slept { unity, log, pid, polls },
            Effect::Sleep(POLL_INTERVAL_MS),
        )
    } else {
        closes(settings, task, "Timeout.".to_owned())
    }
}

fn versions(settings: Settings<String>, task: Task, contents: Option<String>) -> (r: (
    Session<String>,
    Effect<String>,
))
    ensures
        r@ == bare(settings@, task).versions(contents.deep_view()),
{
    let found = match &contents {
        Some(c) => paths::unity_version(Some(c.as_str())),
        None => paths::unity_version(None),
    };
    match found {
        Ok(ver) => {
            let unity = paths::unity_path(ver.as_str());
            let line = text::join2("Unity: ", ver.as_str());
            goes(settings, task, Stage::Versioned(unity), Effect::Print(line))
        },
        Err(e) => fails(settings, task, e.message, e.detail),
    }
}

fn starts(
    settings: Settings<String>,
    task: Task,
    unity: String,
    log: String,
    attempt: Attempt,
    reply: spawn::SpawnReply,
) -> (r: (Session<String>, Effect<String>))
    ensures
        r@ == bare(settings@, task).starts(unity@, log@, attempt, reply),
{
    match spawn::spawn_result(reply) {
        Err(e) => fails(settings, task, e.message, e.detail),
        Ok(pid) => records(settings, task, Stage::Recorded { unity, log, pid, attempt }, pid),
    }
}

fn home_text(label: &str, value: &str) -> (r: String)
    ensures
        r@ == home_line(label@, value@),
{
    if value.is_empty() {
        text::join3(label, " HOME=", "<unset>")
    } else {
        text::join3(label, " HOME=", value)
    }
}

fn line_with_pid(head: &str, pid: i32, tail: &str) -> (r: String)
    ensures
        r@ == head@ + text::integer(pid as int) + tail@,
{
    text::join3(head, text::integer_text(pid).as_str(), tail)
}

fn resolve_step(
    settings: Settings<String>,
    task: Task,
    stage: Stage<String>,
    reply: Reply<String>,
) -> (r: (Session<String>, Effect<String>))
    ensures
        r@ == (Session { settings: settings@, task, stage: stage@ }).resolve_next(reply@),
{
    match (stage, reply) {
        (Stage::Banner, _) => {
            let file = paths::pid_file(settings.project.as_str());
            goes(settings, task, Stage::PidFile, Effect::ReadFile(file))
        },
        (Stage::PidFile, Reply::Contents(c)) => {
            let recorded = match &c {
                Some(text) => paths::recorded_pid(Some(text.as_str())),
                None => paths::recorded_pid(None),
            };
            match recorded {
                Some(pid) => goes(settings, task, Stage::Probe(pid), Effect::CheckAlive(pid)),
                None => scans(settings, task),
            }
        },
        (Stage::Probe(pid), Reply::Flag(alive)) => if alive {
            resolves(settings, task, Some(pid))
        } else {
            scans(settings, task)
        },
        (Stage::Scan, Reply::Process(pid)) => resolves(settings, task, pid),
        _ => goes(settings, task, Stage::Over, Effect::Succeed),
    }
}

fn running_step(
    settings: Settings<String>,
    task: Task,
    stage: Stage<String>,
    reply: Reply<String>,
) -> (r: (Session<String>, Effect<String>))
    ensures
        r@ == (Session { settings: settings@, task, stage: stage@ }).running_next(reply@),
{
    match (stage, reply) {
        (Stage::Refresh(pid), _) => if task == Task::Launch && settings.no_focus {
            closes(settings, task, "Already running.".to_owned())
        } else {
            goes(settings, task, Stage::Focusing(pid), Effect::Focus(pid))
        },
        (Stage::Focusing(pid), _) => if task == Task::Launch {
            closes(settings, task, "Already running.".to_owned())
        } else {
            closes(settings, task, line_with_pid("Focused Unity (pid ", pid, ")."))
        },
        (Stage::Ending(pid), _) => removes_pid(settings, task, Stage::Clearing(Some(pid))),
        (Stage::Clearing(None), _) => closes(settings, task, "Unity not running.".to_owned()),
        (Stage::Clearing(Some(pid)), _) => closes(
            settings,
            task,
            line_with_pid("Sent SIGTERM to Unity (pid ", pid, ")."),
        ),
        (Stage::Closing, _) => goes(settings, task, Stage::Over, Effect::Succeed),
        _ => goes(settings, task, Stage::Over, Effect::Succeed),
    }
}

fn launch_step(
    settings: Settings<String>,
    task: Task,
    stage: Stage<String>,
    reply: Reply<String>,
) -> (r: (Session<String>, Effect<String>))
    ensures
        r@ == (Session { settings: settings@, task, stage: stage@ }).launch_next(reply@),
{
    match (stage, reply) {
        (Stage::Version, Reply::Contents(c)) => versions(settings, task, c),
        (Stage::Versioned(unity), _) => goes(
            settings,
            task,
            Stage::Helpers(unity),
            Effect::FindProcesses("CodePatcherCLI".to_owned()),
        ),
        (Stage::Helpers(unity), Reply::Processes(pids)) => goes(
            settings,
            task,
            Stage::Swept(unity),
            Effect::TerminateAll(pids),
        ),
        (Stage::Swept(unity), _) => if settings.batchmode {
            goes(
                settings,
                task,
                Stage::BatchBanner(unity),
                Effect::Print("[BATCHMODE] Pairing -nographics with -batchmode".to_owned()),
            )
        } else {
            let backup = paths::scene_backup(settings.project.as_str());
            goes(settings, task, Stage::Backup(unity), Effect::Exists(backup))
        },
        (Stage::BatchBanner(unity), _) => prepares(settings, task, unity, Attempt::Batch),
        (Stage::Backup(unity), Reply::Flag(there)) => if there {
            goes(settings, task, Stage::BackupStamp(unity), Effect::Timestamp)
        } else {
            prepares(settings, task, unity, Attempt::First)
        },
        (Stage::BackupStamp(unity), Reply::Stamp(stamp)) => {
            let from = paths::scene_backup(settings.project.as_str());
            let to = paths::moved_backup(settings.project.as_str(), stamp.as_str());
            goes(settings, task, Stage::BackupMoved(unity), Effect::Rename { from, to })
        },
        (Stage::BackupMoved(unity), Reply::Moved(why)) => match why {
            Some(e) => {
                let line = text::join2("Warning: failed to move scene backup: ", e.as_str());
                goes(settings, task, Stage::Warned(unity), Effect::Print(line))
            },
            None => prepares(settings, task, unity, Attempt::First),
        },
        (Stage::Warned(unity), _) => prepares(settings, task, unity, Attempt::First),
        _ => goes(settings, task, Stage::Over, Effect::Succeed),
    }
}

fn start_step(
    settings: Settings<String>,
    task: Task,
    stage: Stage<String>,
    reply: Reply<String>,
) -> (r: (Session<String>, Effect<String>))
    ensures
        r@ == (Session { settings: settings@, task, stage: stage@ }).start_next(reply@),
{
    match (stage, reply) {
        (Stage::LogDir(unity, attempt), _) => {
            let dir = paths::logs_dir(settings.project.as_str());
            goes(settings, task, Stage::LogPruned(unity, attempt), Effect::PruneLaunchLogs(dir))
        },
        (Stage::LogPruned(unity, attempt), _) => goes(
            settings,
            task,
            Stage::LogStamp(unity, attempt),
            Effect::Timestamp,
        ),
        (Stage::LogStamp(unity, attempt), Reply::Stamp(stamp)) => {
            let log = paths::launch_log(settings.project.as_str(), stamp.as_str());
            let line = text::join2("Log: ", log.as_str());
            goes(settings, task, Stage::LogNamed { unity, log, attempt }, Effect::Print(line))
        },
        (Stage::LogNamed { unity, log, attempt }, _) => {
            let mode = match attempt {
                Attempt::Batch => SpawnMode::BatchSync,
                Attempt::First | Attempt::Again => SpawnMode::Detached,
            };
            let effect = Effect::Spawn {
                unity: unity.clone(),
                project: settings.project.clone(),
                log: log.clone(),
                mode,
            };
            goes(settings, task, Stage::Spawning { unity, log, attempt }, effect)
        },
        (Stage::Spawning { unity, log, attempt }, Reply::Spawned(r)) => starts(
            settings,
            task,
            unity,
            log,
            attempt,
            r,
        ),
        (Stage::Waiting(log), Reply::Exit(code)) => if code == 0 {
            goes(settings, task, Stage::Over, Effect::Succeed)
        } else {
            let message = text::join2(
                "Unity batchmode exited ",
                text::integer_text(code).as_str(),
            );
            fails(settings, task, message, Some(text::join2("See ", log.as_str())))
        },
        (Stage::Recorded { unity, log, pid, attempt }, _) => match attempt {
            Attempt::Batch => goes(settings, task, Stage::Waiting(log), Effect::Wait(pid)),
            Attempt::First => {
                let line = line_with_pid("Launching Unity (pid ", pid, ")...");
                goes(settings, task, Stage::Announced { unity, log, pid }, Effect::Print(line))
            },
            Attempt::Again => goes(settings, task, Stage::Over, Effect::Succeed),
        },
        _ => goes(settings, task, Stage::Over, Effect::Succeed),
    }
}

fn watch_step(
    settings: Settings<String>,
    task: Task,
    stage: Stage<String>,
    reply: Reply<String>,
) -> (r: (Session<String>, Effect<String>))
    requires
        (Session { settings: settings@, task, stage: stage@ }).wf(),
    ensures
        r@ == (Session { settings: settings@, task, stage: stage@ }).watch_next(reply@),
{
    match (stage, reply) {
        (Stage::Announced { unity, log, pid }, _) => watches(settings, task, unity, log, pid, 0),
        (Stage::Slept { unity, log, pid, polls }, _) => {
            let file = log.clone();
            goes(
                settings,
                task,
                Stage::LogRead { unity, log, pid, polls },
                Effect::ReadFile(file),
            )
        },
        (Stage::LogRead { unity, log, pid, polls }, Reply::Contents(contents)) => {
            let started = match &contents {
                Some(c) => text::contains(c.as_str(), "Successfully updated license"),
                None => false,
            };
            if started {
                closes(settings, task, "Unity started.".to_owned())
            } else if contents.is_none() && polls + 1 < STARTUP_TIMEOUT_MS / POLL_INTERVAL_MS {
                watches(settings, task, unity, log, pid, polls + 1)
            } else {
                goes(
                    settings,
                    task,
                    Stage::Watched { unity, log, pid, polls },
                    Effect::CheckAlive(pid),
                )
            }
        },
        (Stage::Watched { unity, log, pid, polls }, Reply::Flag(alive)) => if alive {
            watches(settings, task, unity, log, pid, polls + 1)
        } else {
            goes(
                settings,
                task,
                Stage::Exited(unity),
                Effect::Print("Unity exited during startup.".to_owned()),
            )
        },
        _ => goes(settings, task, Stage::Over, Effect::Succeed),
    }
}

fn auth_step(
    settings: Settings<String>,
    task: Task,
    stage: Stage<String>,
    reply: Reply<String>,
) -> (r: (Session<String>, Effect<String>))
    ensures
        r@ == (Session { settings: settings@, task, stage: stage@ }).auth_next(reply@),
{
    match (stage, reply) {
        (Stage::Exited(unity), _) => removes_pid(settings, task, Stage::ExitCleared(unity)),
        (Stage::ExitCleared(unity), _) => {
            let script = settings.auth_script.clone();
            goes(settings, task, Stage::Hook(unity), Effect::Exists(script))
        },
        (Stage::Hook(unity), Reply::Flag(there)) => if there {
            let line = text::join2("Running auth hook: ", settings.auth_script.as_str());
            goes(settings, task, Stage::HookBanner(unity), Effect::Print(line))
        } else {
            fails(
                settings,
                task,
                "Unity license error".to_owned(),
                Some(
                    "Check Unity Hub auth, or install ~/.config/unity-launcher/auth.sh (just install-config)".to_owned(),
                ),
            )
        },
        (Stage::HookBanner(unity), _) => {
            let dir = paths::logs_dir(settings.project.as_str());
            goes(settings, task, Stage::HookPruned(unity), Effect::PruneAuthLogs(dir))
        },
        (Stage::HookPruned(unity), _) => goes(
            settings,
            task,
            Stage::HookStamp(unity),
            Effect::Timestamp,
        ),
        (Stage::HookStamp(unity), Reply::Stamp(stamp)) => {
            let command = spawn::auth_command(unity.as_str(), settings.auth_script.as_str());
            let log = paths::auth_log(settings.project.as_str(), stamp.as_str());
            goes(
                settings,
                task,
                Stage::HookRun(unity),
                Effect::Shell { command, transcript: Some(log) },
            )
        },
        (Stage::HookRun(unity), Reply::Shell { output, exit }) => if exit != 0 {
            let e = spawn::auth_failure(output.as_str());
            fails(settings, task, e.message, e.detail)
        } else {
            goes(
                settings,
                task,
                Stage::Relaunching(unity),
                Effect::Print("Relaunching...".to_owned()),
            )
        },
        (Stage::Relaunching(unity), _) => prepares(settings, task, unity, Attempt::Again),
        _ => goes(settings, task, Stage::Over, Effect::Succeed),
    }
}

fn other_step(
    settings: Settings<String>,
    task: Task,
    stage: Stage<String>,
    reply: Reply<String>,
) -> (r: (Session<String>, Effect<String>))
    ensures
        r@ == (Session { settings: settings@, task, stage: stage@ }).other_next(reply@),
{
    match (stage, reply) {
        (Stage::UsageShown(name), _) => fails(
            settings,
            task,
            text::join2("unknown subcommand: ", name.as_str()),
            None,
        ),
        (Stage::DebugSelf, _) => goes(
            settings,
            task,
            Stage::DebugShell,
            Effect::Shell { command: "/usr/bin/printenv HOME".to_owned(), transcript: None },
        ),
        (Stage::DebugShell, Reply::Shell { output, exit: _ }) => {
            let line = home_text("shell", text::trim(output.as_str()).as_str());
            goes(settings, task, Stage::DebugShellShown, Effect::Print(line))
        },
        (Stage::DebugShellShown, _) => goes(
            settings,
            task,
            Stage::DebugCapture,
            Effect::Capture {
                program: "/usr/bin/printenv".to_owned(),
                arg: "HOME".to_owned(),
            },
        ),
        (Stage::DebugCapture, Reply::Captured(output)) => closes(
            settings,
            task,
            home_text("spawn", text::trim(output.as_str()).as_str()),
        ),
        _ => goes(settings, task, Stage::Over, Effect::Succeed),
    }
}

impl Session<String> {
    /// Begins to carry out a command.
    pub fn run(command: Command<String>, settings: Settings<String>) -> (r: (Self, Effect<String>))
        ensures
            r.0@.wf(),
            r@ == Session::begun(command@, settings@),
    {
        match command {
            Command::Launch => {
                let line = text::join2("Project: ", settings.project.as_str());
                goes(settings, Task::Launch, Stage::Banner, Effect::Print(line))
            },
            Command::Focus => {
                let file = paths::pid_file(settings.project.as_str());
                goes(settings, Task::Focus, Stage::PidFile, Effect::ReadFile(file))
            },
            Command::Quit => {
                let file = paths::pid_file(settings.project.as_str());
                goes(settings, Task::Quit, Stage::PidFile, Effect::ReadFile(file))
            },
            Command::DebugEnv => {
                let line = home_text("self", settings.home.as_str());
                goes(settings, Task::Launch, Stage::DebugSelf, Effect::Print(line))
            },
            Command::Unknown(name) => goes(
                settings,
                Task::Launch,
                Stage::UsageShown(name),
                Effect::Usage,
            ),
        }
    }

    /// Goes on, once the effect that the session waits for has come to `reply`.
    pub fn step(self, reply: Reply<String>) -> (r: (Self, Effect<String>))
        requires
            self@.wf(),
            expects(self@.stage, reply@),
        ensures
            r.0@.wf(),
            r@ == self@.next(reply@),
    {
        let Session { settings, task, stage } = self;
        match phase(&stage) {
            Phase::Find => resolve_step(settings, task, stage, reply),
            Phase::Running => running_step(settings, task, stage, reply),
            Phase::Launch => launch_step(settings, task, stage, reply),
            Phase::Start => start_step(settings, task, stage, reply),
            Phase::Watch => watch_step(settings, task, stage, reply),
            Phase::Hook => auth_step(settings, task, stage, reply),
            Phase::Other => other_step(settings, task, stage, reply),
            Phase::Over => goes(settings, task, Stage::Over, Effect::Succeed),
        }
    }
}

} // verus!
