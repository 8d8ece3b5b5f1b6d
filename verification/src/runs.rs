//! What the commands come to, from their first effect to their last: each law
//! follows a session through the replies that it is given, whatever these hold.

use vstd::prelude::*;

use crate::paths::{joined, version_in};
use crate::progress::{mode_kept, trace};
use crate::session::{Attempt, Command, Effect, Reply, Session, Settings, Stage, Task};
use crate::spawn::{SpawnMode, SpawnReply};
use crate::step::{expects, phase_of, Phase};
use crate::text::{integer, occurs_in, parsed_i32, trimmed};

verus! {

// ---------------------------------------------------------------------------
// Beginning
// ---------------------------------------------------------------------------

/// A session keeps its settings and its task.
pub proof fn settings_are_kept(
    command: Command<Seq<char>>,
    settings: Settings<Seq<char>>,
    s: Session<Seq<char>>,
    reply: Reply<Seq<char>>,
)
    ensures
        Session::begun(command, settings).0.settings == settings,
        s.next(reply).0.settings == s.settings,
        s.next(reply).0.task == s.task,
{
}

/// A launch says which project it is for, and then reads the record; the other
/// commands on the editor read the record at once.
pub proof fn commands_begin_with_the_record(settings: Settings<Seq<char>>)
    ensures
        ({
            let record = Effect::ReadFile(joined(settings.project, "Temp/.unity-launcher.pid"@));
            let (launch, line) = Session::begun(Command::Launch, settings);
            let (focus, focus_reads) = Session::begun(Command::Focus, settings);
            let (quit, quit_reads) = Session::begun(Command::Quit, settings);
            &&& line == Effect::Print("Project: "@ + settings.project)
            &&& launch.next(Reply::Done).1 == record
            &&& launch.next(Reply::Done).0.stage is PidFile
            &&& launch.task == Task::Launch
            &&& focus_reads == record && focus.stage is PidFile && focus.task == Task::Focus
            &&& quit_reads == record && quit.stage is PidFile && quit.task == Task::Quit
        }),
{
}

/// Something that is no command is answered with the usage and a failure that
/// names it.
pub proof fn unknown_command_fails(settings: Settings<Seq<char>>, name: Seq<char>)
    ensures
        ({
            let (s, usage) = Session::begun(Command::Unknown(name), settings);
            &&& usage is Usage
            &&& s.next(Reply::Done).1 == (Effect::Fail {
                message: "unknown subcommand: "@ + name,
                detail: None,
            })
        }),
{
}

/// The diagnostic shows `HOME` as the launcher has it, as a shell has it, and as a
/// program has it that is started as the editor is; an empty one counts as unset.
pub proof fn diagnostic_shows_home_everywhere(
    settings: Settings<Seq<char>>,
    shell: Seq<char>,
    exit: i32,
    spawn: Seq<char>,
)
    ensures
        ({
            let (a, own) = Session::begun(Command::DebugEnv, settings);
            let (b, run) = a.next(Reply::Done);
            let (c, shells) = b.next(Reply::Shell { output: shell, exit });
            let (d, capture) = c.next(Reply::Done);
            let (e, spawns) = d.next(Reply::Captured(spawn));
            &&& own == Effect::Print("self"@ + " HOME="@ + (if settings.home.len() == 0 {
                "<unset>"@
            } else {
                settings.home
            }))
            &&& run == (Effect::Shell { command: "/usr/bin/printenv HOME"@, transcript: None })
            &&& shells == Effect::Print("shell"@ + " HOME="@ + (if trimmed(shell).len() == 0 {
                "<unset>"@
            } else {
                trimmed(shell)
            }))
            &&& capture == (Effect::Capture { program: "/usr/bin/printenv"@, arg: "HOME"@ })
            &&& spawns == Effect::Print("spawn"@ + " HOME="@ + (if trimmed(spawn).len() == 0 {
                "<unset>"@
            } else {
                trimmed(spawn)
            }))
            &&& e.next(Reply::Done).1 is Succeed
        }),
{
}

// ---------------------------------------------------------------------------
// Finding the running editor
// ---------------------------------------------------------------------------

/// The process in the record is looked at where the record is a process id;
/// where it lives, it counts as much as one that the search has found. In every
/// other case the search decides.
pub proof fn editor_is_found_by_record_or_search(
    s: Session<Seq<char>>,
    contents: Option<Seq<char>>,
    found: Option<i32>,
)
    requires
        s.stage is PidFile,
    ensures
        ({
            let (a, look) = s.next(Reply::Contents(contents));
            let search = Effect::FindEditor(s.settings.project);
            match contents {
                Some(c) if parsed_i32(trimmed(c)) is Some => {
                    let pid = parsed_i32(trimmed(c))->0;
                    let (b, dead) = a.next(Reply::Flag(false));
                    &&& look == Effect::<Seq<char>>::CheckAlive(pid)
                    &&& dead == search
                    &&& a.next(Reply::Flag(true)) == b.next(Reply::Process(Some(pid)))
                },
                _ => look == search && a.stage is Scan,
            }
        }),
{
}

/// Once the editor is found, a launch or a focus records its process, and brings
/// it to the front unless a launch is not to; then it says so and succeeds. A
/// headless launch fails.
pub proof fn found_editor_is_focused(s: Session<Seq<char>>, pid: i32)
    requires
        s.stage is Scan,
        s.task == Task::Launch || s.task == Task::Focus,
    ensures
        ({
            let launch = s.task == Task::Launch;
            let (a, record) = s.next(Reply::Process(Some(pid)));
            let (b, front) = a.next(Reply::Done);
            let (c, line) = b.next(Reply::Done);
            if launch && s.settings.batchmode {
                record == (Effect::Fail {
                    message: "Unity already running"@,
                    detail: Some(
                        "Cannot launch batchmode while another instance holds the project lock (pid "@
                            + integer(pid as int) + ")"@,
                    ),
                })
            } else {
                &&& record == (Effect::WriteFile {
                    dir: joined(s.settings.project, "Temp"@),
                    file: joined(s.settings.project, "Temp/.unity-launcher.pid"@),
                    contents: integer(pid as int),
                })
                &&& launch && s.settings.no_focus ==> front == Effect::Print(
                    "Already running."@,
                ) && line is Succeed
                &&& !(launch && s.settings.no_focus) ==> {
                    &&& front == Effect::<Seq<char>>::Focus(pid)
                    &&& line == Effect::Print(
                        if launch {
                            "Already running."@
                        } else {
                            "Focused Unity (pid "@ + integer(pid as int) + ")."@
                        },
                    )
                    &&& c.next(Reply::Done).1 is Succeed
                }
            }
        }),
{
}

/// A focus fails where no editor is found.
pub proof fn focus_fails_without_an_editor(s: Session<Seq<char>>)
    requires
        s.stage is Scan,
        s.task == Task::Focus,
    ensures
        s.next(Reply::Process(None)).1 == (Effect::Fail {
            message: "Unity not running"@,
            detail: Some("No live process found for "@ + s.settings.project),
        }),
{
}

/// A quit asks the editor that was found to end, removes the record whether or
/// not one was found, says so and succeeds.
pub proof fn quit_ends_the_found_editor(s: Session<Seq<char>>, pid: i32)
    requires
        s.stage is Scan,
        s.task == Task::Quit,
    ensures
        ({
            let gone = Effect::RemoveFile(joined(s.settings.project, "Temp/.unity-launcher.pid"@));
            let (a, end) = s.next(Reply::Process(Some(pid)));
            let (b, removal) = a.next(Reply::Done);
            let (c, line) = b.next(Reply::Done);
            let (x, only) = s.next(Reply::Process(None));
            let (y, none) = x.next(Reply::Done);
            &&& end == Effect::<Seq<char>>::Terminate(pid)
            &&& removal == gone
            &&& line == Effect::Print("Sent SIGTERM to Unity (pid "@ + integer(pid as int) + ")."@)
            &&& c.next(Reply::Done).1 is Succeed
            &&& only == gone
            &&& none == Effect::Print("Unity not running."@)
            &&& y.next(Reply::Done).1 is Succeed
        }),
{
}

// ---------------------------------------------------------------------------
// Launching
// ---------------------------------------------------------------------------

/// A launch that finds no editor reads the version file and fails where that
/// names no version. Else it says the version, ends all leftover helpers, and
/// gets ready to start that version's editor.
pub proof fn launch_reads_the_version(
    s: Session<Seq<char>>,
    contents: Option<Seq<char>>,
    helpers: Vec<i32>,
)
    requires
        s.stage is Scan,
        s.task == Task::Launch,
    ensures
        ({
            let project = s.settings.project;
            let (a, file) = s.next(Reply::Process(None));
            let (b, line) = a.next(Reply::Contents(contents));
            let (c, search) = b.next(Reply::Done);
            let (d, end) = c.next(Reply::Processes(helpers));
            let (e, next) = d.next(Reply::Done);
            &&& file == Effect::ReadFile(joined(project, "ProjectSettings/ProjectVersion.txt"@))
            &&& match version_in(contents) {
                Err(why) => line == (Effect::Fail { message: why.0, detail: why.1 }),
                Ok(ver) => {
                    let unity = "/Applications/Unity/Hub/Editor/"@ + ver
                        + "/Unity.app/Contents/MacOS/Unity"@;
                    &&& line == Effect::Print("Unity: "@ + ver)
                    &&& search == Effect::FindProcesses("CodePatcherCLI"@)
                    &&& end == Effect::<Seq<char>>::TerminateAll(helpers)
                    &&& s.settings.batchmode ==> {
                        &&& next == Effect::Print(
                            "[BATCHMODE] Pairing -nographics with -batchmode"@,
                        )
                        &&& e.next(Reply::Done).1 == Effect::CreateDir(joined(project, "Logs"@))
                        &&& e.next(Reply::Done).0.stage == Stage::LogDir(unity, Attempt::Batch)
                    }
                    &&& !s.settings.batchmode ==> {
                        &&& next == Effect::Exists(joined(project, "Temp/__Backupscenes"@))
                        &&& e.stage == Stage::Backup(unity)
                    }
                },
            }
        }),
{
}

/// A launch goes on to start the editor whether or not there is a scene backup,
/// and whether or not moving it succeeds: the backup is moved where there is one,
/// a failure is told, and every way comes to the same.
pub proof fn backup_does_not_stop_a_launch(
    s: Session<Seq<char>>,
    unity: Seq<char>,
    stamp: Seq<char>,
    why: Seq<char>,
)
    requires
        s.stage == Stage::Backup(unity),
    ensures
        ({
            let project = s.settings.project;
            let (none, logs) = s.next(Reply::Flag(false));
            let (a, clock) = s.next(Reply::Flag(true));
            let (b, moves) = a.next(Reply::Stamp(stamp));
            let (c, warning) = b.next(Reply::Moved(Some(why)));
            &&& logs == Effect::CreateDir(joined(project, "Logs"@))
            &&& none.stage == Stage::LogDir(unity, Attempt::First)
            &&& clock is Timestamp
            &&& moves == (Effect::Rename {
                from: joined(project, "Temp/__Backupscenes"@),
                to: joined(project, "Temp/__Backupscenes."@ + stamp),
            })
            &&& b.next(Reply::Moved(None)) == (none, logs)
            &&& warning == Effect::Print("Warning: failed to move scene backup: "@ + why)
            &&& c.next(Reply::Done) == (none, logs)
        }),
{
}

/// A start makes room for its log, names it after the present moment, says its
/// name, and starts the editor with it on the project. Where that fails, the
/// command fails with the system's code.
pub proof fn start_names_a_log_and_spawns(
    s: Session<Seq<char>>,
    unity: Seq<char>,
    attempt: Attempt,
    stamp: Seq<char>,
    code: i32,
    pid: i32,
)
    requires
        s.stage == Stage::LogDir(unity, attempt),
    ensures
        ({
            let project = s.settings.project;
            let log = joined(joined(project, "Logs"@), "unity-"@ + stamp + ".log"@);
            let (a, prune) = s.next(Reply::Done);
            let (b, clock) = a.next(Reply::Done);
            let (c, line) = b.next(Reply::Stamp(stamp));
            let (d, start) = c.next(Reply::Done);
            let (e, record) = d.next(Reply::Spawned(SpawnReply::Returned { code: 0, pid }));
            let failed = d.next(Reply::Spawned(SpawnReply::Returned { code, pid })).1;
            &&& prune == Effect::PruneLaunchLogs(joined(project, "Logs"@))
            &&& clock is Timestamp
            &&& line == Effect::Print("Log: "@ + log)
            &&& start == (Effect::Spawn {
                unity,
                project,
                log,
                mode: if attempt == Attempt::Batch {
                    SpawnMode::BatchSync
                } else {
                    SpawnMode::Detached
                },
            })
            &&& record == (Effect::WriteFile {
                dir: joined(project, "Temp"@),
                file: joined(project, "Temp/.unity-launcher.pid"@),
                contents: integer(pid as int),
            })
            &&& code != 0 ==> failed == (Effect::Fail {
                message: "Failed to spawn Unity"@,
                detail: Some("posix_spawn returned "@ + integer(code as int)),
            })
            &&& d.next(Reply::Spawned(SpawnReply::NotPrepared)).1 == (Effect::Fail {
                message: "posix_spawn_file_actions_init failed"@,
                detail: None,
            })
            &&& e.next(Reply::Done).1 == (match attempt {
                Attempt::Batch => Effect::Wait(pid),
                Attempt::First => Effect::Print(
                    "Launching Unity (pid "@ + integer(pid as int) + ")..."@,
                ),
                Attempt::Again => Effect::Succeed,
            })
            &&& e.next(Reply::Done).0.stage == (match attempt {
                Attempt::Batch => Stage::Waiting(log),
                Attempt::First => Stage::Announced { unity, log, pid },
                Attempt::Again => Stage::Over,
            })
        }),
{
}

/// A headless launch succeeds just where the editor's exit code is zero; else it
/// fails with the code and points to the log.
pub proof fn headless_launch_succeeds_with_exit_zero(
    s: Session<Seq<char>>,
    log: Seq<char>,
    code: i32,
)
    requires
        s.stage == Stage::Waiting(log),
    ensures
        s.next(Reply::Exit(code)).1 is Succeed <==> code == 0,
        code != 0 ==> s.next(Reply::Exit(code)).1 == (Effect::Fail {
            message: "Unity batchmode exited "@ + integer(code as int),
            detail: Some("See "@ + log),
        }),
{
}

// ---------------------------------------------------------------------------
// Watching
// ---------------------------------------------------------------------------

/// A starting editor is looked at every tenth of a second, fifty times at most:
/// each look reads its log. Where it lives at the last look, the launch says that
/// the time is over and succeeds.
pub proof fn watch_takes_fifty_looks(
    s: Session<Seq<char>>,
    unity: Seq<char>,
    log: Seq<char>,
    pid: i32,
    polls: u64,
)
    requires
        polls < 50,
    ensures
        s.stage == (Stage::Announced { unity, log, pid }) ==> {
            &&& s.next(Reply::Done).1 == Effect::<Seq<char>>::Sleep(100)
            &&& s.next(Reply::Done).0.stage == (Stage::Slept { unity, log, pid, polls: 0 })
        },
        s.stage == (Stage::Slept { unity, log, pid, polls }) ==> {
            &&& s.next(Reply::Done).1 == Effect::ReadFile(log)
            &&& s.next(Reply::Done).0.stage == (Stage::LogRead { unity, log, pid, polls })
        },
        s.stage == (Stage::Watched { unity, log, pid, polls }) ==> ({
            let (t, effect) = s.next(Reply::Flag(true));
            if polls < 49 {
                &&& effect == Effect::<Seq<char>>::Sleep(100)
                &&& t.stage == (Stage::Slept { unity, log, pid, polls: (polls + 1) as u64 })
            } else {
                &&& effect == Effect::Print("Timeout."@)
                &&& t.next(Reply::Done).1 is Succeed
            }
        }),
{
}

/// A starting editor counts as started just where its log holds the text
/// `Successfully updated license`. With any other log that can be read, and at
/// the last look in any case, the process is looked at.
pub proof fn start_is_told_by_the_license_line(
    s: Session<Seq<char>>,
    unity: Seq<char>,
    log: Seq<char>,
    pid: i32,
    polls: u64,
    contents: Option<Seq<char>>,
)
    requires
        polls < 50,
        s.stage == (Stage::LogRead { unity, log, pid, polls }),
    ensures
        ({
            let (t, effect) = s.next(Reply::Contents(contents));
            let told = contents matches Some(c) && exists|x: Seq<char>, y: Seq<char>|
                c == #[trigger] (x + "Successfully updated license"@ + y);
            &&& effect == Effect::Print("Unity started."@) && t.stage is Closing <==> told
            &&& told ==> t.next(Reply::Done).1 is Succeed
            &&& !told && (contents is Some || polls == 49) ==> {
                &&& effect == Effect::<Seq<char>>::CheckAlive(pid)
                &&& t.stage == (Stage::Watched { unity, log, pid, polls })
            }
            &&& contents is None && polls < 49 ==> {
                &&& effect == Effect::<Seq<char>>::Sleep(100)
                &&& t.stage == (Stage::Slept { unity, log, pid, polls: (polls + 1) as u64 })
            }
        }),
{
    if let Some(c) = contents {
        let marker = "Successfully updated license"@;
        if occurs_in(c, marker) {
            crate::text::occurring_is_standing_between(c, marker, seq![], seq![]);
        }
        if exists|x: Seq<char>, y: Seq<char>| c == #[trigger] (x + marker + y) {
            let (x, y) = choose|x: Seq<char>, y: Seq<char>| c == #[trigger] (x + marker + y);
            crate::text::occurring_is_standing_between(c, marker, x, y);
        }
    }
}

/// A launch whose editor has ended early says so, removes the record, and looks
/// for the auth hook. Without one it fails. With one it says so, makes room for
/// the hook's log, and runs the hook; then it starts the same editor again.
pub proof fn ended_editor_is_started_again(
    s: Session<Seq<char>>,
    unity: Seq<char>,
    stamp: Seq<char>,
    output: Seq<char>,
)
    requires
        s.stage is Watched,
        s.stage->Watched_unity == unity,
    ensures
        ({
            let project = s.settings.project;
            let hook = s.settings.auth_script;
            let (a, line) = s.next(Reply::Flag(false));
            let (b, removal) = a.next(Reply::Done);
            let (c, look) = b.next(Reply::Done);
            let (d, says) = c.next(Reply::Flag(true));
            let (e, prune) = d.next(Reply::Done);
            let (f, clock) = e.next(Reply::Done);
            let (g, run) = f.next(Reply::Stamp(stamp));
            let (h, again) = g.next(Reply::Shell { output, exit: 0 });
            let (i, logs) = h.next(Reply::Done);
            &&& line == Effect::Print("Unity exited during startup."@)
            &&& removal == Effect::RemoveFile(joined(project, "Temp/.unity-launcher.pid"@))
            &&& look == Effect::Exists(hook)
            &&& c.next(Reply::Flag(false)).1 == (Effect::Fail {
                message: "Unity license error"@,
                detail: Some(
                    "Check Unity Hub auth, or install ~/.config/unity-launcher/auth.sh (just install-config)"@,
                ),
            })
            &&& says == Effect::Print("Running auth hook: "@ + hook)
            &&& prune == Effect::PruneAuthLogs(joined(project, "Logs"@))
            &&& clock is Timestamp
            &&& run matches Effect::Shell { transcript, .. } && transcript == Some(
                joined(joined(project, "Logs"@), "unity-auth-"@ + stamp + ".log"@),
            )
            &&& again == Effect::Print("Relaunching..."@)
            &&& logs == Effect::CreateDir(joined(project, "Logs"@))
            &&& i.stage == Stage::LogDir(unity, Attempt::Again)
        }),
{
}

/// A launch fails where the auth hook does, whatever its exit code and output.
pub proof fn failed_hook_fails_the_launch(
    s: Session<Seq<char>>,
    unity: Seq<char>,
    output: Seq<char>,
    exit: i32,
)
    requires
        s.stage == Stage::HookRun(unity),
    ensures
        s.next(Reply::Shell { output, exit }).1 is Fail <==> exit != 0,
{
}

// ---------------------------------------------------------------------------
// What success means
// ---------------------------------------------------------------------------

/// Whether an effect and its reply show that an editor was started.
pub open spec fn has_started(effect: Effect<Seq<char>>, reply: Reply<Seq<char>>) -> bool {
    &&& effect is Spawn
    &&& reply matches Reply::Spawned(SpawnReply::Returned { code, .. }) && code == 0
}

/// Whether an effect and its reply show that an editor runs already.
pub open spec fn has_found(effect: Effect<Seq<char>>, reply: Reply<Seq<char>>) -> bool {
    ||| effect is FindEditor && (reply matches Reply::Process(Some(_)))
    ||| effect is CheckAlive && reply == Reply::<Seq<char>>::Flag(true)
}

/// A session that is to start an editor and has not started it yet.
spec fn is_to_start(s: Session<Seq<char>>, effect: Effect<Seq<char>>) -> bool {
    match s.stage {
        Stage::Spawning { .. } => effect is Spawn,
        Stage::Waiting(_) | Stage::Recorded { .. } => false,
        _ => phase_of(s.stage) == Phase::Launch || phase_of(s.stage) == Phase::Start || phase_of(
            s.stage,
        ) == Phase::Hook,
    }
}

/// A launch that does not know yet whether the editor runs.
spec fn is_to_find(s: Session<Seq<char>>, effect: Effect<Seq<char>>) -> bool {
    match s.stage {
        Stage::Probe(_) => effect is CheckAlive,
        Stage::Scan => effect is FindEditor,
        _ => phase_of(s.stage) == Phase::Find,
    }
}

proof fn lemma_start_step(
    s: Session<Seq<char>>,
    effect: Effect<Seq<char>>,
    reply: Reply<Seq<char>>,
)
    requires
        is_to_start(s, effect),
        expects(s.stage, reply),
    ensures
        ({
            let (t, next) = s.next(reply);
            ||| has_started(effect, reply)
            ||| is_to_start(t, next) && !(next is Succeed)
            ||| t.stage is Over && next is Fail
        }),
{
}

proof fn lemma_success_needs_start(
    s: Session<Seq<char>>,
    effect: Effect<Seq<char>>,
    replies: Seq<Reply<Seq<char>>>,
    k: int,
) -> (i: int)
    requires
        is_to_start(s, effect),
        0 <= k < trace(s, replies).len(),
        trace(s, replies)[k] is Succeed,
    ensures
        0 <= i < replies.len(),
        i <= trace(s, replies).len(),
        has_started((seq![effect] + trace(s, replies))[i], replies[i]),
    decreases replies.len(),
{
    let (t, next) = s.next(replies[0]);
    let rest = replies.skip(1);
    let all = seq![effect] + trace(s, replies);
    lemma_start_step(s, effect, replies[0]);
    assert(trace(s, replies) == seq![next] + trace(t, rest));
    if has_started(effect, replies[0]) {
        0
    } else if next is Fail {
        assert(trace(t, rest).len() == 0);
        0
    } else {
        let i = lemma_success_needs_start(t, next, rest, k - 1);
        assert(all[i + 1] == (seq![next] + trace(t, rest))[i]);
        assert(replies[i + 1] == rest[i]);
        i + 1
    }
}

proof fn lemma_find_step(
    s: Session<Seq<char>>,
    effect: Effect<Seq<char>>,
    reply: Reply<Seq<char>>,
)
    requires
        s.task == Task::Launch,
        is_to_find(s, effect),
        expects(s.stage, reply),
    ensures
        ({
            let (t, next) = s.next(reply);
            ||| has_found(effect, reply)
            ||| is_to_find(t, next) && t.task == s.task && !(next is Succeed)
            ||| is_to_start(t, next) && !(next is Succeed)
        }),
{
}

proof fn lemma_success_needs_editor(
    s: Session<Seq<char>>,
    effect: Effect<Seq<char>>,
    replies: Seq<Reply<Seq<char>>>,
    k: int,
) -> (i: int)
    requires
        s.task == Task::Launch,
        is_to_find(s, effect),
        0 <= k < trace(s, replies).len(),
        trace(s, replies)[k] is Succeed,
    ensures
        0 <= i < replies.len(),
        i <= trace(s, replies).len(),
        ({
            let e = (seq![effect] + trace(s, replies))[i];
            has_started(e, replies[i]) || has_found(e, replies[i])
        }),
    decreases replies.len(),
{
    let (t, next) = s.next(replies[0]);
    let rest = replies.skip(1);
    let all = seq![effect] + trace(s, replies);
    lemma_find_step(s, effect, replies[0]);
    assert(trace(s, replies) == seq![next] + trace(t, rest));
    if has_found(effect, replies[0]) {
        0
    } else {
        let i = if is_to_find(t, next) {
            lemma_success_needs_editor(t, next, rest, k - 1)
        } else {
            lemma_success_needs_start(t, next, rest, k - 1)
        };
        assert(all[i + 1] == (seq![next] + trace(t, rest))[i]);
        assert(replies[i + 1] == rest[i]);
        i + 1
    }
}

/// A launch succeeds only where an editor was found running or was started,
/// whatever comes of its effects.
pub proof fn launch_succeeds_only_with_an_editor(
    settings: Settings<Seq<char>>,
    replies: Seq<Reply<Seq<char>>>,
    k: int,
)
    requires
        0 <= k < trace(Session::begun(Command::Launch, settings).0, replies).len(),
        trace(Session::begun(Command::Launch, settings).0, replies)[k] is Succeed,
    ensures
        ({
            let (s, first) = Session::begun(Command::Launch, settings);
            let effects = seq![first] + trace(s, replies);
            exists|i: int|
                0 <= i < replies.len() && i < effects.len() && (#[trigger] has_started(
                    effects[i],
                    replies[i],
                ) || has_found(effects[i], replies[i]))
        }),
{
    let (s, first) = Session::begun(Command::Launch, settings);
    let effects = seq![first] + trace(s, replies);
    let i = lemma_success_needs_editor(s, first, replies, k);
    assert(has_started(effects[i], replies[i]) || has_found(effects[i], replies[i]));
}

/// A launch whose editor has ended early succeeds only where an editor was
/// started again.
pub proof fn ended_launch_succeeds_only_with_a_new_start(
    s: Session<Seq<char>>,
    replies: Seq<Reply<Seq<char>>>,
    k: int,
)
    requires
        s.stage is Watched,
        0 <= k < trace(s.next(Reply::Flag(false)).0, replies).len(),
        trace(s.next(Reply::Flag(false)).0, replies)[k] is Succeed,
    ensures
        ({
            let (t, first) = s.next(Reply::Flag(false));
            let effects = seq![first] + trace(t, replies);
            exists|i: int|
                0 <= i < replies.len() && i < effects.len() && #[trigger] has_started(
                    effects[i],
                    replies[i],
                )
        }),
{
    let (t, first) = s.next(Reply::Flag(false));
    let effects = seq![first] + trace(t, replies);
    let i = lemma_success_needs_start(t, first, replies, k);
    assert(has_started(effects[i], replies[i]));
}

/// Whether an effect and its reply show that a headless editor has ended well.
pub open spec fn has_ended_well(effect: Effect<Seq<char>>, reply: Reply<Seq<char>>) -> bool {
    effect is Wait && reply == Reply::<Seq<char>>::Exit(0)
}

spec fn is_headless(s: Session<Seq<char>>, effect: Effect<Seq<char>>) -> bool {
    &&& s.settings.batchmode
    &&& s.task == Task::Launch
    &&& mode_kept(s)
    &&& match s.stage {
        Stage::Waiting(_) => effect is Wait,
        _ => phase_of(s.stage) == Phase::Find || phase_of(s.stage) == Phase::Launch || phase_of(
            s.stage,
        ) == Phase::Start,
    }
}

proof fn lemma_headless_step(
    s: Session<Seq<char>>,
    effect: Effect<Seq<char>>,
    reply: Reply<Seq<char>>,
)
    requires
        is_headless(s, effect),
        expects(s.stage, reply),
    ensures
        ({
            let (t, next) = s.next(reply);
            ||| has_ended_well(effect, reply)
            ||| is_headless(t, next) && !(next is Succeed)
            ||| t.stage is Over && next is Fail
        }),
{
}

proof fn lemma_headless_success(
    s: Session<Seq<char>>,
    effect: Effect<Seq<char>>,
    replies: Seq<Reply<Seq<char>>>,
    k: int,
) -> (i: int)
    requires
        is_headless(s, effect),
        0 <= k < trace(s, replies).len(),
        trace(s, replies)[k] is Succeed,
    ensures
        0 <= i < replies.len(),
        i <= trace(s, replies).len(),
        has_ended_well((seq![effect] + trace(s, replies))[i], replies[i]),
    decreases replies.len(),
{
    let (t, next) = s.next(replies[0]);
    let rest = replies.skip(1);
    let all = seq![effect] + trace(s, replies);
    lemma_headless_step(s, effect, replies[0]);
    assert(trace(s, replies) == seq![next] + trace(t, rest));
    if has_ended_well(effect, replies[0]) {
        0
    } else if next is Fail {
        assert(trace(t, rest).len() == 0);
        0
    } else {
        let i = lemma_headless_success(t, next, rest, k - 1);
        assert(all[i + 1] == (seq![next] + trace(t, rest))[i]);
        assert(replies[i + 1] == rest[i]);
        i + 1
    }
}

/// A headless launch succeeds only where the editor was waited for and has ended
/// with the exit code zero.
pub proof fn headless_launch_succeeds_only_with_exit_zero(
    settings: Settings<Seq<char>>,
    replies: Seq<Reply<Seq<char>>>,
    k: int,
)
    requires
        settings.batchmode,
        0 <= k < trace(Session::begun(Command::Launch, settings).0, replies).len(),
        trace(Session::begun(Command::Launch, settings).0, replies)[k] is Succeed,
    ensures
        ({
            let (s, first) = Session::begun(Command::Launch, settings);
            let effects = seq![first] + trace(s, replies);
            exists|i: int|
                0 <= i < replies.len() && i < effects.len() && #[trigger] has_ended_well(
                    effects[i],
                    replies[i],
                )
        }),
{
    let (s, first) = Session::begun(Command::Launch, settings);
    let effects = seq![first] + trace(s, replies);
    let i = lemma_headless_success(s, first, replies, k);
    assert(has_ended_well(effects[i], replies[i]));
}

} // verus!
