//! The commands, step by step. A session says what to do next; whoever runs it
//! does that and hands back what came of it, until the session is over.

use vstd::prelude::*;

use crate::spawn::{SpawnMode, SpawnReply};

verus! {

/// How long a started editor is watched, in milliseconds.
pub const STARTUP_TIMEOUT_MS: u64 = 5000;

/// How long to wait between two looks at a starting editor, in milliseconds.
pub const POLL_INTERVAL_MS: u64 = 100;

/// What the launcher is asked to do.
#[derive(Clone, Debug, PartialEq, Eq)]
pub enum Command<S> {
    /// Launch the editor, or focus it where it runs.
    Launch,
    /// Focus the running editor.
    Focus,
    /// End the running editor.
    Quit,
    /// Show `HOME` as the launcher and its children see it.
    DebugEnv,
    /// Something that the launcher does not know.
    Unknown(S),
}

/// Something to do. The type of its texts is `String` where it is to be done,
/// and a sequence of characters where it is spoken of.
#[derive(Clone, Debug, PartialEq, Eq)]
pub enum Effect<S> {
    /// Print a line.
    Print(S),
    /// Print how the launcher is used.
    Usage,
    /// Read a file.
    ReadFile(S),
    /// Write a file, and make its directory first. Failing is no matter.
    WriteFile { dir: S, file: S, contents: S },
    /// Remove a file. Failing is no matter.
    RemoveFile(S),
    /// Look whether a file or directory exists.
    Exists(S),
    /// Make a directory and those around it. Failing is no matter.
    CreateDir(S),
    /// Move a file or directory.
    Rename { from: S, to: S },
    /// Take the present moment's timestamp.
    Timestamp,
    /// Remove the logs of launches that are too many from a directory.
    PruneLaunchLogs(S),
    /// Remove the logs of the auth hook that are too many from a directory.
    PruneAuthLogs(S),
    /// Look whether a process is a live editor.
    CheckAlive(i32),
    /// Find the first process that is the editor of a project.
    FindEditor(S),
    /// Find all processes whose command line holds a text.
    FindProcesses(S),
    /// Ask a process to end.
    Terminate(i32),
    /// Ask each of some processes to end.
    TerminateAll(Vec<i32>),
    /// Bring a process to the front.
    Focus(i32),
    /// Start the editor.
    Spawn { unity: S, project: S, log: S, mode: SpawnMode },
    /// Wait for a process to end.
    Wait(i32),
    /// Wait some milliseconds.
    Sleep(u64),
    /// Run a command in the shell, and write its output to a file.
    Shell { command: S, transcript: Option<S> },
    /// Run a program with one argument, and take its output.
    Capture { program: S, arg: S },
    /// Stop: the command has succeeded.
    Succeed,
    /// Stop: the command has failed.
    Fail { message: S, detail: Option<S> },
}

/// What came of an effect.
#[derive(Clone, Debug, PartialEq, Eq)]
pub enum Reply<S> {
    /// It is done.
    Done,
    /// What a file holds, or nothing where it could not be read.
    Contents(Option<S>),
    /// Whether it is so.
    Flag(bool),
    /// The process that was found.
    Process(Option<i32>),
    /// The processes that were found.
    Processes(Vec<i32>),
    /// The timestamp.
    Stamp(S),
    /// Why a file could not be moved, or nothing where it was.
    Moved(Option<S>),
    /// What the system said to a start.
    Spawned(SpawnReply),
    /// The exit code of a process.
    Exit(i32),
    /// What a command printed, and its exit code.
    Shell { output: S, exit: i32 },
    /// What a program printed.
    Captured(S),
}

/// Which start of the editor is meant.
#[derive(Clone, Copy, Debug, PartialEq, Eq, Structural)]
pub enum Attempt {
    /// A headless one.
    Batch,
    /// The first one.
    First,
    /// The one after the auth hook.
    Again,
}

/// What a session waits for.
#[derive(Clone, Debug, PartialEq, Eq)]
pub enum Stage<S> {
    /// The first line of a launch to be printed.
    Banner,
    /// The contents of the pid file.
    PidFile,
    /// Whether the recorded process lives.
    Probe(i32),
    /// The search for the editor's process.
    Scan,
    /// The running editor's process id to be recorded.
    Refresh(i32),
    /// The running editor to be brought to the front.
    Focusing(i32),
    /// The running editor to be asked to end.
    Ending(i32),
    /// The pid file to be removed.
    Clearing(Option<i32>),
    /// The last line to be printed.
    Closing,
    /// The contents of the version file.
    Version,
    /// The version to be printed.
    Versioned(S),
    /// The search for leftover helpers.
    Helpers(S),
    /// The leftover helpers to be asked to end.
    Swept(S),
    /// The headless start to be announced.
    BatchBanner(S),
    /// Whether there are scene backups.
    Backup(S),
    /// The timestamp for the scene backups.
    BackupStamp(S),
    /// The scene backups to be moved.
    BackupMoved(S),
    /// The warning about the scene backups to be printed.
    Warned(S),
    /// The log directory to be made.
    LogDir(S, Attempt),
    /// The logs to be pruned.
    LogPruned(S, Attempt),
    /// The timestamp for the log.
    LogStamp(S, Attempt),
    /// The log's name to be printed.
    LogNamed { unity: S, log: S, attempt: Attempt },
    /// The editor to be started.
    Spawning { unity: S, log: S, attempt: Attempt },
    /// The headless editor to end.
    Waiting(S),
    /// The started editor's process id to be recorded.
    Recorded { unity: S, log: S, pid: i32, attempt: Attempt },
    /// The start to be announced.
    Announced { unity: S, log: S, pid: i32 },
    /// The time until the next look at the log, after `polls` looks.
    Slept { unity: S, log: S, pid: i32, polls: u64 },
    /// The contents of the log.
    LogRead { unity: S, log: S, pid: i32, polls: u64 },
    /// Whether the starting editor lives.
    Watched { unity: S, log: S, pid: i32, polls: u64 },
    /// The editor's early end to be printed.
    Exited(S),
    /// The pid file to be removed after an early end.
    ExitCleared(S),
    /// Whether there is an auth hook.
    Hook(S),
    /// The auth hook to be announced.
    HookBanner(S),
    /// The logs of the auth hook to be pruned.
    HookPruned(S),
    /// The timestamp for the log of the auth hook.
    HookStamp(S),
    /// The auth hook to end.
    HookRun(S),
    /// The second start to be announced.
    Relaunching(S),
    /// The usage to be printed.
    UsageShown(S),
    /// `HOME` as the launcher sees it to be printed.
    DebugSelf,
    /// The shell's `HOME`.
    DebugShell,
    /// The shell's `HOME` to be printed.
    DebugShellShown,
    /// The child's `HOME`.
    DebugCapture,
    /// Nothing: the session is over.
    Over,
}

/// What a session does not change.
#[derive(Clone, Debug, PartialEq, Eq)]
pub struct Settings<S> {
    /// The project's directory.
    pub project: S,
    /// Whether the editor is to run headless.
    pub batchmode: bool,
    /// Whether a running editor is left where it is on a launch.
    pub no_focus: bool,
    /// The auth hook.
    pub auth_script: S,
    /// The value of `HOME`, empty where it is not set.
    pub home: S,
}

/// What is done with a running editor.
#[derive(Clone, Copy, Debug, PartialEq, Eq, Structural)]
pub enum Task {
    Launch,
    Focus,
    Quit,
}

/// A command that is being carried out.
#[derive(Clone, Debug, PartialEq, Eq)]
pub struct Session<S> {
    pub settings: Settings<S>,
    pub task: Task,
    pub stage: Stage<S>,
}

// ---------------------------------------------------------------------------
// Texts as sequences of characters
// ---------------------------------------------------------------------------

impl View for Command<String> {
    type V = Command<Seq<char>>;

    open spec fn view(&self) -> Command<Seq<char>> {
        match self {
            Command::Launch => Command::Launch,
            Command::Focus => Command::Focus,
            Command::Quit => Command::Quit,
            Command::DebugEnv => Command::DebugEnv,
            Command::Unknown(name) => Command::Unknown(name@),
        }
    }
}

impl View for Effect<String> {
    type V = Effect<Seq<char>>;

    open spec fn view(&self) -> Effect<Seq<char>> {
        match self {
            Effect::Print(line) => Effect::Print(line@),
            Effect::Usage => Effect::Usage,
            Effect::ReadFile(file) => Effect::ReadFile(file@),
            Effect::WriteFile { dir, file, contents } => Effect::WriteFile {
                dir: dir@,
                file: file@,
                contents: contents@,
            },
            Effect::RemoveFile(file) => Effect::RemoveFile(file@),
            Effect::Exists(file) => Effect::Exists(file@),
            Effect::CreateDir(dir) => Effect::CreateDir(dir@),
            Effect::Rename { from, to } => Effect::Rename { from: from@, to: to@ },
            Effect::Timestamp => Effect::Timestamp,
            Effect::PruneLaunchLogs(dir) => Effect::PruneLaunchLogs(dir@),
            Effect::PruneAuthLogs(dir) => Effect::PruneAuthLogs(dir@),
            Effect::CheckAlive(pid) => Effect::CheckAlive(*pid),
            Effect::FindEditor(project) => Effect::FindEditor(project@),
            Effect::FindProcesses(needle) => Effect::FindProcesses(needle@),
            Effect::Terminate(pid) => Effect::Terminate(*pid),
            Effect::TerminateAll(pids) => Effect::TerminateAll(*pids),
            Effect::Focus(pid) => Effect::Focus(*pid),
            Effect::Spawn { unity, project, log, mode } => Effect::Spawn {
                unity: unity@,
                project: project@,
                log: log@,
                mode: *mode,
            },
            Effect::Wait(pid) => Effect::Wait(*pid),
            Effect::Sleep(ms) => Effect::Sleep(*ms),
            Effect::Shell { command, transcript } => Effect::Shell {
                command: command@,
                transcript: transcript.deep_view(),
            },
            Effect::Capture { program, arg } => Effect::Capture { program: program@, arg: arg@ },
            Effect::Succeed => Effect::Succeed,
            Effect::Fail { message, detail } => Effect::Fail {
                message: message@,
                detail: detail.deep_view(),
            },
        }
    }
}

impl View for Reply<String> {
    type V = Reply<Seq<char>>;

    open spec fn view(&self) -> Reply<Seq<char>> {
        match self {
            Reply::Done => Reply::Done,
            Reply::Contents(c) => Reply::Contents(c.deep_view()),
            Reply::Flag(b) => Reply::Flag(*b),
            Reply::Process(pid) => Reply::Process(*pid),
            Reply::Processes(pids) => Reply::Processes(*pids),
            Reply::Stamp(t) => Reply::Stamp(t@),
            Reply::Moved(e) => Reply::Moved(e.deep_view()),
            Reply::Spawned(r) => Reply::Spawned(*r),
            Reply::Exit(code) => Reply::Exit(*code),
            Reply::Shell { output, exit } => Reply::Shell { output: output@, exit: *exit },
            Reply::Captured(output) => Reply::Captured(output@),
        }
    }
}

impl View for Stage<String> {
    type V = Stage<Seq<char>>;

    open spec fn view(&self) -> Stage<Seq<char>> {
        match self {
            Stage::Banner => Stage::Banner,
            Stage::PidFile => Stage::PidFile,
            Stage::Probe(pid) => Stage::Probe(*pid),
            Stage::Scan => Stage::Scan,
            Stage::Refresh(pid) => Stage::Refresh(*pid),
            Stage::Focusing(pid) => Stage::Focusing(*pid),
            Stage::Ending(pid) => Stage::Ending(*pid),
            Stage::Clearing(pid) => Stage::Clearing(*pid),
            Stage::Closing => Stage::Closing,
            Stage::Version => Stage::Version,
            Stage::Versioned(unity) => Stage::Versioned(unity@),
            Stage::Helpers(unity) => Stage::Helpers(unity@),
            Stage::Swept(unity) => Stage::Swept(unity@),
            Stage::BatchBanner(unity) => Stage::BatchBanner(unity@),
            Stage::Backup(unity) => Stage::Backup(unity@),
            Stage::BackupStamp(unity) => Stage::BackupStamp(unity@),
            Stage::BackupMoved(unity) => Stage::BackupMoved(unity@),
            Stage::Warned(unity) => Stage::Warned(unity@),
            Stage::LogDir(unity, attempt) => Stage::LogDir(unity@, *attempt),
            Stage::LogPruned(unity, attempt) => Stage::LogPruned(unity@, *attempt),
            Stage::LogStamp(unity, attempt) => Stage::LogStamp(unity@, *attempt),
            Stage::LogNamed { unity, log, attempt } => Stage::LogNamed {
                unity: unity@,
                log: log@,
                attempt: *attempt,
            },
            Stage::Spawning { unity, log, attempt } => Stage::Spawning {
                unity: unity@,
                log: log@,
                attempt: *attempt,
            },
            Stage::Waiting(log) => Stage::Waiting(log@),
            Stage::Recorded { unity, log, pid, attempt } => Stage::Recorded {
                unity: unity@,
                log: log@,
                pid: *pid,
                attempt: *attempt,
            },
            Stage::Announced { unity, log, pid } => Stage::Announced {
                unity: unity@,
                log: log@,
                pid: *pid,
            },
            Stage::Slept { unity, log, pid, polls } => Stage::Slept {
                unity: unity@,
                log: log@,
                pid: *pid,
                polls: *polls,
            },
            Stage::LogRead { unity, log, pid, polls } => Stage::LogRead {
                unity: unity@,
                log: log@,
                pid: *pid,
                polls: *polls,
            },
            Stage::Watched { unity, log, pid, polls } => Stage::Watched {
                unity: unity@,
                log: log@,
                pid: *pid,
                polls: *polls,
            },
            Stage::Exited(unity) => Stage::Exited(unity@),
            Stage::ExitCleared(unity) => Stage::ExitCleared(unity@),
            Stage::Hook(unity) => Stage::Hook(unity@),
            Stage::HookBanner(unity) => Stage::HookBanner(unity@),
            Stage::HookPruned(unity) => Stage::HookPruned(unity@),
            Stage::HookStamp(unity) => Stage::HookStamp(unity@),
            Stage::HookRun(unity) => Stage::HookRun(unity@),
            Stage::Relaunching(unity) => Stage::Relaunching(unity@),
            Stage::UsageShown(name) => Stage::UsageShown(name@),
            Stage::DebugSelf => Stage::DebugSelf,
            Stage::DebugShell => Stage::DebugShell,
            Stage::DebugShellShown => Stage::DebugShellShown,
            Stage::DebugCapture => Stage::DebugCapture,
            Stage::Over => Stage::Over,
        }
    }
}

impl View for Settings<String> {
    type V = Settings<Seq<char>>;

    open spec fn view(&self) -> Settings<Seq<char>> {
        Settings {
            project: self.project@,
            batchmode: self.batchmode,
            no_focus: self.no_focus,
            auth_script: self.auth_script@,
            home: self.home@,
        }
    }
}

impl View for Session<String> {
    type V = Session<Seq<char>>;

    open spec fn view(&self) -> Session<Seq<char>> {
        Session { settings: self.settings@, task: self.task, stage: self.stage@ }
    }
}

} // verus!
