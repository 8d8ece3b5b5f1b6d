//! What holds of every session, whatever comes of its effects.

use vstd::prelude::*;

use crate::paths;
use crate::session::{
    Attempt, Command, Effect, Reply, Session, Settings, Stage, Task, POLL_INTERVAL_MS,
    STARTUP_TIMEOUT_MS,
};
use crate::spawn::{hook_command, hook_failure, SpawnMode, SpawnReply};
use crate::step::{bare, expects, phase_of, startup_polls, tells_of_start, Phase};
use crate::text;

verus! {

/// Whether a reply is one that this effect can come to.
pub open spec fn fits(effect: Effect<Seq<char>>, reply: Reply<Seq<char>>) -> bool {
    match effect {
        Effect::ReadFile(_) => reply is Contents,
        Effect::Exists(_) | Effect::CheckAlive(_) => reply is Flag,
        Effect::FindEditor(_) => reply is Process,
        Effect::FindProcesses(_) => reply is Processes,
        Effect::Timestamp => reply is Stamp,
        Effect::Rename { .. } => reply is Moved,
        Effect::Spawn { .. } => reply is Spawned,
        Effect::Wait(_) => reply is Exit,
        Effect::Shell { .. } => reply is Shell,
        Effect::Capture { .. } => reply is Captured,
        Effect::Succeed | Effect::Fail { .. } => false,
        _ => reply is Done,
    }
}

/// A session that begins can go on with any reply that fits its effect, and
/// with no other.
pub proof fn first_effect_is_waited_for(
    command: Command<Seq<char>>,
    settings: Settings<Seq<char>>,
    reply: Reply<Seq<char>>,
)
    ensures
        ({
            let (s, effect) = Session::begun(command, settings);
            expects(s.stage, reply) <==> fits(effect, reply)
        }),
{
}

/// A session that goes on can go on again with any reply that fits its new
/// effect, and with no other.
pub proof fn next_effect_is_waited_for(
    s: Session<Seq<char>>,
    reply: Reply<Seq<char>>,
    then_reply: Reply<Seq<char>>,
)
    requires
        expects(s.stage, reply),
    ensures
        ({
            let (t, effect) = s.next(reply);
            expects(t.stage, then_reply) <==> fits(effect, then_reply)
        }),
{
}

/// How many replies a session takes at most before it is over.
pub open spec fn steps_left(s: Session<Seq<char>>) -> int {
    match s.stage {
        Stage::Over => 0,
        Stage::Closing | Stage::Waiting(_) | Stage::UsageShown(_) => 1,
        Stage::Focusing(_) | Stage::Clearing(_) | Stage::DebugCapture => 2,
        Stage::Refresh(_) | Stage::Ending(_) | Stage::DebugShellShown => 3,
        Stage::DebugShell => 4,
        Stage::DebugSelf => 5,
        Stage::Recorded { attempt, .. } => after_start(attempt),
        Stage::Spawning { attempt, .. } => after_start(attempt) + 1,
        Stage::LogNamed { attempt, .. } => after_start(attempt) + 2,
        Stage::LogStamp(_, attempt) => after_start(attempt) + 3,
        Stage::LogPruned(_, attempt) => after_start(attempt) + 4,
        Stage::LogDir(_, attempt) => after_start(attempt) + 5,
        Stage::Relaunching(_) => 7,
        Stage::HookRun(_) => 8,
        Stage::HookStamp(_) => 9,
        Stage::HookPruned(_) => 10,
        Stage::HookBanner(_) => 11,
        Stage::Hook(_) => 12,
        Stage::ExitCleared(_) => 13,
        Stage::Exited(_) => 14,
        Stage::Watched { polls, .. } => 12 + 3 * (startup_polls() - polls),
        Stage::LogRead { polls, .. } => 13 + 3 * (startup_polls() - polls),
        Stage::Slept { polls, .. } => 14 + 3 * (startup_polls() - polls),
        Stage::Announced { .. } => 15 + 3 * startup_polls(),
        Stage::Warned(_) | Stage::BatchBanner(_) => 22 + 3 * startup_polls(),
        Stage::BackupMoved(_) => 23 + 3 * startup_polls(),
        Stage::BackupStamp(_) => 24 + 3 * startup_polls(),
        Stage::Backup(_) => 25 + 3 * startup_polls(),
        Stage::Swept(_) => 26 + 3 * startup_polls(),
        Stage::Helpers(_) => 27 + 3 * startup_polls(),
        Stage::Versioned(_) => 28 + 3 * startup_polls(),
        Stage::Version => 29 + 3 * startup_polls(),
        Stage::Scan => 30 + 3 * startup_polls(),
        Stage::Probe(_) => 31 + 3 * startup_polls(),
        Stage::PidFile => 32 + 3 * startup_polls(),
        Stage::Banner => 33 + 3 * startup_polls(),
    }
}

/// How many replies a session takes at most once a start is recorded.
pub open spec fn after_start(attempt: Attempt) -> int {
    match attempt {
        Attempt::Batch => 2,
        Attempt::First => 16 + 3 * startup_polls(),
        Attempt::Again => 1,
    }
}

/// Whether a session goes on from `s` towards its end.
pub open spec fn nears_its_end(s: Session<Seq<char>>, reply: Reply<Seq<char>>) -> bool {
    let (t, effect) = s.next(reply);
    &&& t.wf()
    &&& 0 <= steps_left(t) < steps_left(s)
    &&& t.stage is Over <==> effect is Succeed || effect is Fail
    &&& steps_left(t) == 0 <==> t.stage is Over
}

proof fn lemma_before_start(s: Session<Seq<char>>, reply: Reply<Seq<char>>)
    requires
        phase_of(s.stage) == Phase::Find || phase_of(s.stage) == Phase::Launch,
        expects(s.stage, reply),
    ensures
        nears_its_end(s, reply),
{
}

proof fn lemma_start(s: Session<Seq<char>>, reply: Reply<Seq<char>>)
    requires
        phase_of(s.stage) == Phase::Start,
        expects(s.stage, reply),
    ensures
        nears_its_end(s, reply),
{
}

proof fn lemma_watch(s: Session<Seq<char>>, reply: Reply<Seq<char>>)
    requires
        s.wf(),
        phase_of(s.stage) == Phase::Watch,
        expects(s.stage, reply),
    ensures
        nears_its_end(s, reply),
{
}

proof fn lemma_hook(s: Session<Seq<char>>, reply: Reply<Seq<char>>)
    requires
        phase_of(s.stage) == Phase::Hook,
        expects(s.stage, reply),
    ensures
        nears_its_end(s, reply),
{
}

proof fn lemma_rest(s: Session<Seq<char>>, reply: Reply<Seq<char>>)
    requires
        phase_of(s.stage) == Phase::Running || phase_of(s.stage) == Phase::Other,
        expects(s.stage, reply),
    ensures
        nears_its_end(s, reply),
{
}

/// Every reply brings a session nearer to its end, so that every session ends;
/// it ends with a success or a failure and with nothing else.
pub proof fn every_session_ends(s: Session<Seq<char>>, reply: Reply<Seq<char>>)
    requires
        s.wf(),
        expects(s.stage, reply),
    ensures
        nears_its_end(s, reply),
{
    match phase_of(s.stage) {
        Phase::Find | Phase::Launch => lemma_before_start(s, reply),
        Phase::Start => lemma_start(s, reply),
        Phase::Watch => lemma_watch(s, reply),
        Phase::Hook => lemma_hook(s, reply),
        _ => lemma_rest(s, reply),
    }
}

// ---------------------------------------------------------------------------
// Whole runs
// ---------------------------------------------------------------------------

/// The effects of a session after these replies, as far as it can go on.
pub open spec fn trace(s: Session<Seq<char>>, replies: Seq<Reply<Seq<char>>>) -> Seq<
    Effect<Seq<char>>,
>
    decreases replies.len(),
{
    if replies.len() == 0 || !expects(s.stage, replies[0]) {
        seq![]
    } else {
        let (t, effect) = s.next(replies[0]);
        seq![effect] + trace(t, replies.skip(1))
    }
}

/// A session goes on no more often than it has steps left.
pub proof fn runs_are_bounded(s: Session<Seq<char>>, replies: Seq<Reply<Seq<char>>>)
    requires
        s.wf(),
    ensures
        trace(s, replies).len() <= steps_left(s),
    decreases replies.len(),
{
    if replies.len() > 0 && expects(s.stage, replies[0]) {
        every_session_ends(s, replies[0]);
        runs_are_bounded(s.next(replies[0]).0, replies.skip(1));
    }
}

/// How many of some effects start an editor.
pub open spec fn starts_in(effects: Seq<Effect<Seq<char>>>) -> nat
    decreases effects.len(),
{
    if effects.len() == 0 {
        0
    } else {
        (if effects[0] is Spawn {
            1nat
        } else {
            0nat
        }) + starts_in(effects.skip(1))
    }
}

/// How many editors a session may still start.
pub open spec fn starts_left(s: Session<Seq<char>>) -> nat {
    match s.stage {
        Stage::Banner | Stage::PidFile | Stage::Probe(_) | Stage::Scan => if s.task
            == Task::Launch {
            starts_allowed(s.settings.batchmode)
        } else {
            0
        },
        Stage::Version | Stage::Versioned(_) | Stage::Helpers(_) | Stage::Swept(
            _,
        ) => starts_allowed(s.settings.batchmode),
        Stage::BatchBanner(_) => 1,
        Stage::Backup(_) | Stage::BackupStamp(_) | Stage::BackupMoved(_) | Stage::Warned(_) => 2,
        Stage::LogDir(_, attempt) | Stage::LogPruned(_, attempt) | Stage::LogStamp(
            _,
            attempt,
        ) | Stage::LogNamed { attempt, .. } => if attempt == Attempt::First {
            2
        } else {
            1
        },
        Stage::Spawning { attempt, .. } | Stage::Recorded { attempt, .. } => if attempt
            == Attempt::First {
            1
        } else {
            0
        },
        Stage::Announced { .. } | Stage::Slept { .. } | Stage::LogRead { .. } | Stage::Watched {
            ..
        } => 1,
        Stage::Exited(_) | Stage::ExitCleared(_) | Stage::Hook(_) | Stage::HookBanner(
            _,
        ) | Stage::HookPruned(_) | Stage::HookStamp(_) | Stage::HookRun(_) | Stage::Relaunching(
            _,
        ) => 1,
        _ => 0,
    }
}

/// How many editors a launch starts at most.
pub open spec fn starts_allowed(batchmode: bool) -> nat {
    if batchmode {
        1
    } else {
        2
    }
}

proof fn lemma_starts_step(s: Session<Seq<char>>, reply: Reply<Seq<char>>)
    requires
        expects(s.stage, reply),
    ensures
        ({
            let (t, effect) = s.next(reply);
            starts_left(t) + (if effect is Spawn {
                1nat
            } else {
                0nat
            }) <= starts_left(s)
        }),
{
}

proof fn lemma_starts(s: Session<Seq<char>>, replies: Seq<Reply<Seq<char>>>)
    ensures
        starts_in(trace(s, replies)) <= starts_left(s),
    decreases replies.len(),
{
    if replies.len() > 0 && expects(s.stage, replies[0]) {
        let (t, effect) = s.next(replies[0]);
        lemma_starts_step(s, replies[0]);
        lemma_starts(t, replies.skip(1));
        assert(trace(s, replies).skip(1) =~= trace(t, replies.skip(1)));
    }
}

/// A launch starts the editor twice at most, a headless launch once at most,
/// and no other command starts it at all.
pub proof fn editor_is_started_twice_at_most(
    command: Command<Seq<char>>,
    settings: Settings<Seq<char>>,
    replies: Seq<Reply<Seq<char>>>,
)
    ensures
        ({
            let (s, effect) = Session::begun(command, settings);
            &&& !(effect is Spawn)
            &&& starts_in(trace(s, replies)) <= (if command is Launch {
                starts_allowed(settings.batchmode)
            } else {
                0
            })
        }),
{
    let (s, effect) = Session::begun(command, settings);
    lemma_starts(s, replies);
}

/// Once the project's editor is found running, whatever the command, no other
/// one is started.
pub proof fn running_editor_is_not_doubled(
    s: Session<Seq<char>>,
    pid: i32,
    replies: Seq<Reply<Seq<char>>>,
)
    ensures
        !(s.resolves(Some(pid)).1 is Spawn),
        starts_in(trace(s.resolves(Some(pid)).0, replies)) == 0,
{
    lemma_starts(s.resolves(Some(pid)).0, replies);
}

/// How long some effects wait in all, in milliseconds.
pub open spec fn waits_in(effects: Seq<Effect<Seq<char>>>) -> nat
    decreases effects.len(),
{
    if effects.len() == 0 {
        0
    } else {
        (match effects[0] {
            Effect::Sleep(ms) => ms as nat,
            _ => 0,
        }) + waits_in(effects.skip(1))
    }
}

/// How long a session may still wait.
pub open spec fn waits_left(s: Session<Seq<char>>) -> int {
    match s.stage {
        Stage::Slept { polls, .. } | Stage::LogRead { polls, .. } | Stage::Watched {
            polls,
            ..
        } => POLL_INTERVAL_MS * (startup_polls() - 1 - polls),
        Stage::Announced { .. } => STARTUP_TIMEOUT_MS as int,
        Stage::LogDir(_, attempt) | Stage::LogPruned(_, attempt) | Stage::LogStamp(
            _,
            attempt,
        ) | Stage::LogNamed { attempt, .. } | Stage::Spawning { attempt, .. } | Stage::Recorded {
            attempt,
            ..
        } => if attempt == Attempt::First {
            STARTUP_TIMEOUT_MS as int
        } else {
            0
        },
        _ => if phase_of(s.stage) == Phase::Find || phase_of(s.stage) == Phase::Launch {
            STARTUP_TIMEOUT_MS as int
        } else {
            0
        },
    }
}

proof fn lemma_waits_step(s: Session<Seq<char>>, reply: Reply<Seq<char>>)
    requires
        s.wf(),
        expects(s.stage, reply),
    ensures
        ({
            let (t, effect) = s.next(reply);
            &&& t.wf()
            &&& 0 <= waits_left(t)
            &&& waits_left(t) + (match effect {
                Effect::Sleep(ms) => ms as int,
                _ => 0,
            }) <= waits_left(s)
        }),
{
}

proof fn lemma_waits(s: Session<Seq<char>>, replies: Seq<Reply<Seq<char>>>)
    requires
        s.wf(),
    ensures
        waits_in(trace(s, replies)) <= waits_left(s),
    decreases replies.len(),
{
    if replies.len() > 0 && expects(s.stage, replies[0]) {
        let (t, effect) = s.next(replies[0]);
        lemma_waits_step(s, replies[0]);
        lemma_waits(t, replies.skip(1));
        assert(trace(s, replies).skip(1) =~= trace(t, replies.skip(1)));
    }
}

/// A command waits no longer for a starting editor than it is to.
pub proof fn startup_is_not_awaited_forever(
    command: Command<Seq<char>>,
    settings: Settings<Seq<char>>,
    replies: Seq<Reply<Seq<char>>>,
)
    ensures
        waits_in(trace(Session::begun(command, settings).0, replies)) <= STARTUP_TIMEOUT_MS,
{
    lemma_waits(Session::begun(command, settings).0, replies);
}

/// Whether an effect asks the editor of the project to end.
pub open spec fn ends_editor(effect: Effect<Seq<char>>) -> bool {
    effect is Terminate
}

/// Only a session that is to end the editor asks it to.
pub proof fn only_quit_ends_the_editor(
    s: Session<Seq<char>>,
    replies: Seq<Reply<Seq<char>>>,
    i: int,
)
    requires
        s.task != Task::Quit,
        0 <= i < trace(s, replies).len(),
    ensures
        !ends_editor(trace(s, replies)[i]),
    decreases replies.len(),
{
    let (t, effect) = s.next(replies[0]);
    assert(t.task == s.task && !ends_editor(effect)) by {
        lemma_task_step(s, replies[0]);
    }
    assert(trace(s, replies)[0] == effect);
    if i > 0 {
        assert(trace(s, replies)[i] == trace(t, replies.skip(1))[i - 1]);
        only_quit_ends_the_editor(t, replies.skip(1), i - 1);
    }
}

proof fn lemma_task_step(s: Session<Seq<char>>, reply: Reply<Seq<char>>)
    requires
        s.task != Task::Quit,
    ensures
        s.next(reply).0.task == s.task,
        !ends_editor(s.next(reply).1),
{
}

/// A session whose stage goes with whether it is to run the editor headless.
pub open spec fn mode_kept(s: Session<Seq<char>>) -> bool {
    match s.stage {
        Stage::BatchBanner(_) => s.settings.batchmode,
        Stage::Backup(_) | Stage::BackupStamp(_) | Stage::BackupMoved(_) | Stage::Warned(
            _,
        ) => !s.settings.batchmode,
        Stage::LogDir(_, attempt) | Stage::LogPruned(_, attempt) | Stage::LogStamp(
            _,
            attempt,
        ) | Stage::LogNamed { attempt, .. } | Stage::Spawning { attempt, .. } | Stage::Recorded {
            attempt,
            ..
        } => attempt == Attempt::Batch <==> s.settings.batchmode,
        Stage::Announced { .. } | Stage::Slept { .. } | Stage::LogRead { .. } | Stage::Watched {
            ..
        } => !s.settings.batchmode,
        Stage::Exited(_) | Stage::ExitCleared(_) | Stage::Hook(_) | Stage::HookBanner(
            _,
        ) | Stage::HookPruned(_) | Stage::HookStamp(_) | Stage::HookRun(_) | Stage::Relaunching(
            _,
        ) => !s.settings.batchmode,
        _ => true,
    }
}

/// Whether an effect that starts the editor starts it as the settings say, and
/// on their project.
pub open spec fn starts_as_set(effect: Effect<Seq<char>>, settings: Settings<Seq<char>>) -> bool {
    effect matches Effect::Spawn { project, mode, .. } ==> project == settings.project && mode == (
    if settings.batchmode {
        SpawnMode::BatchSync
    } else {
        SpawnMode::Detached
    })
}

proof fn lemma_mode_step(s: Session<Seq<char>>, reply: Reply<Seq<char>>)
    requires
        expects(s.stage, reply),
        mode_kept(s),
    ensures
        mode_kept(s.next(reply).0),
        s.next(reply).0.settings == s.settings,
        starts_as_set(s.next(reply).1, s.settings),
{
}

proof fn lemma_mode(s: Session<Seq<char>>, replies: Seq<Reply<Seq<char>>>, i: int)
    requires
        mode_kept(s),
        0 <= i < trace(s, replies).len(),
    ensures
        starts_as_set(trace(s, replies)[i], s.settings),
    decreases replies.len(),
{
    let (t, effect) = s.next(replies[0]);
    lemma_mode_step(s, replies[0]);
    assert(trace(s, replies)[0] == effect);
    if i > 0 {
        assert(trace(s, replies)[i] == trace(t, replies.skip(1))[i - 1]);
        lemma_mode(t, replies.skip(1), i - 1);
    }
}

/// Every editor that a command starts is started on its project, and runs
/// headless just where the command says so.
pub proof fn editor_runs_as_asked(
    command: Command<Seq<char>>,
    settings: Settings<Seq<char>>,
    replies: Seq<Reply<Seq<char>>>,
    i: int,
)
    requires
        0 <= i < trace(Session::begun(command, settings).0, replies).len(),
    ensures
        starts_as_set(trace(Session::begun(command, settings).0, replies)[i], settings),
{
    lemma_mode(Session::begun(command, settings).0, replies, i);
}

/// The editor that a session is about to start, or has started.
pub open spec fn editor_in(stage: Stage<Seq<char>>) -> Option<Seq<char>> {
    match stage {
        Stage::Versioned(unity) | Stage::Helpers(unity) | Stage::Swept(unity) | Stage::BatchBanner(
            unity,
        ) | Stage::Backup(unity) | Stage::BackupStamp(unity) | Stage::BackupMoved(
            unity,
        ) | Stage::Warned(unity) | Stage::LogDir(unity, _) | Stage::LogPruned(
            unity,
            _,
        ) | Stage::LogStamp(unity, _) | Stage::LogNamed { unity, .. } | Stage::Spawning {
            unity,
            ..
        } | Stage::Recorded { unity, .. } | Stage::Announced { unity, .. } | Stage::Slept {
            unity,
            ..
        } | Stage::LogRead { unity, .. } | Stage::Watched { unity, .. } | Stage::Exited(
            unity,
        ) | Stage::ExitCleared(unity) | Stage::Hook(unity) | Stage::HookBanner(
            unity,
        ) | Stage::HookPruned(unity) | Stage::HookStamp(unity) | Stage::HookRun(
            unity,
        ) | Stage::Relaunching(unity) => Some(unity),
        _ => None,
    }
}

/// A session keeps to one editor: it is the one that is started, first and
/// again, and the one that the auth hook is run for.
pub proof fn one_editor_throughout(s: Session<Seq<char>>, reply: Reply<Seq<char>>, unity: Seq<char>)
    requires
        expects(s.stage, reply),
        editor_in(s.stage) == Some(unity),
    ensures
        ({
            let (t, effect) = s.next(reply);
            &&& editor_in(t.stage) matches Some(other) ==> other == unity
            &&& effect matches Effect::Spawn { unity: started, .. } ==> started == unity
            &&& effect matches Effect::Shell { command, .. } ==> command == hook_command(
                unity,
                s.settings.auth_script,
            )
        }),
{
}

// ---------------------------------------------------------------------------
// The recorded process id
// ---------------------------------------------------------------------------

/// An editor that was started, however it runs, is recorded at once; a command
/// on the same project that reads the record looks first at that process, and
/// where it lives, the command is about it.
pub proof fn recorded_editor_is_found_again(
    s: Session<Seq<char>>,
    pid: i32,
    later: Session<Seq<char>>,
)
    requires
        s.stage is Spawning,
        later.stage is PidFile,
        later.settings.project == s.settings.project,
    ensures
        ({
            let effect = s.next(Reply::Spawned(SpawnReply::Returned { code: 0, pid })).1;
            &&& effect matches Effect::WriteFile { file, contents, .. } && {
                &&& file == later.pid_path()
                &&& later.next(Reply::Contents(Some(contents))) == later.goes(
                    Stage::Probe(pid),
                    Effect::CheckAlive(pid),
                )
            }
        }),
        ({
            let probing = later.goes(Stage::Probe(pid), Effect::CheckAlive(pid)).0;
            probing.next(Reply::Flag(true)) == later.resolves(Some(pid))
        }),
{
    paths::recorded_pid_is_read_back(pid);
}

/// Where the record is missing, is no process id, or names a process that does
/// not live, the editor is looked for among the processes.
pub proof fn stale_record_is_not_trusted(
    s: Session<Seq<char>>,
    contents: Option<Seq<char>>,
    pid: i32,
)
    ensures
        s.stage is PidFile && paths::recorded(contents) is None ==> s.next(
            Reply::Contents(contents),
        ) == s.scans(),
        s.stage == Stage::<Seq<char>>::Probe(pid) ==> s.next(Reply::Flag(false)) == s.scans(),
{
}

/// Ending the editor: the process that was found is asked to end, where one
/// was, then the record is removed in any case, and the command succeeds.
pub proof fn quit_removes_the_record(settings: Settings<Seq<char>>, running: Option<i32>)
    ensures
        ({
            let s = bare(settings, Task::Quit);
            let (t, effect) = s.resolves(running);
            match running {
                Some(pid) => {
                    &&& effect == Effect::<Seq<char>>::Terminate(pid)
                    &&& t.next(Reply::Done).1 == Effect::RemoveFile(s.pid_path())
                    &&& t.next(Reply::Done).0.next(Reply::Done).1 == Effect::Print(
                        "Sent SIGTERM to Unity (pid "@ + text::integer(pid as int) + ")."@,
                    )
                    &&& t.next(Reply::Done).0.next(Reply::Done).0.next(Reply::Done).1
                        is Succeed
                },
                None => {
                    &&& effect == Effect::RemoveFile(s.pid_path())
                    &&& t.next(Reply::Done).1 == Effect::Print("Unity not running."@)
                    &&& t.next(Reply::Done).0.next(Reply::Done).1 is Succeed
                },
            }
        }),
{
}

/// A launch or a focus that finds the editor running records its process,
/// brings it to the front and succeeds; a headless launch fails instead.
pub proof fn running_editor_is_brought_to_the_front(
    settings: Settings<Seq<char>>,
    task: Task,
    pid: i32,
)
    requires
        task == Task::Launch || task == Task::Focus,
    ensures
        ({
            let s = bare(settings, task);
            let (t, effect) = s.resolves(Some(pid));
            if task == Task::Launch && settings.batchmode {
                effect is Fail
            } else {
                &&& effect == s.records(pid)
                &&& !(task == Task::Launch && settings.no_focus) ==> {
                    let (u, front) = t.next(Reply::Done);
                    let (v, line) = u.next(Reply::Done);
                    &&& front == Effect::<Seq<char>>::Focus(pid)
                    &&& line is Print
                    &&& v.next(Reply::Done).1 is Succeed
                }
                &&& task == Task::Launch && settings.no_focus ==> {
                    let (u, line) = t.next(Reply::Done);
                    &&& line is Print
                    &&& u.next(Reply::Done).1 is Succeed
                }
            }
        }),
{
}

// ---------------------------------------------------------------------------
// The auth hook
// ---------------------------------------------------------------------------

/// An editor that has ended before its log tells of a start is noticed: at the
/// next look where the log can be read, and at the last look otherwise. The
/// command does not wait for it any longer, and its record is removed.
pub proof fn early_end_is_noticed(
    s: Session<Seq<char>>,
    contents: Option<Seq<char>>,
    unity: Seq<char>,
    pid: i32,
)
    requires
        s.stage is LogRead,
        s.stage->LogRead_unity == unity,
        s.stage->LogRead_pid == pid,
        !tells_of_start(contents),
        contents is Some || s.stage->LogRead_polls + 1 == startup_polls(),
    ensures
        ({
            let (asking, ask) = s.next(Reply::Contents(contents));
            let (ended, line) = asking.next(Reply::Flag(false));
            &&& ask == Effect::<Seq<char>>::CheckAlive(pid)
            &&& line == Effect::Print("Unity exited during startup."@)
            &&& ended.next(Reply::Done) == s.goes(
                Stage::ExitCleared(unity),
                Effect::RemoveFile(s.pid_path()),
            )
        }),
{
}

/// Where the log cannot be read, and this is not the last look, the log is looked
/// at again: it may tell of a start yet, even where the editor has ended since.
pub proof fn unreadable_log_is_looked_at_again(s: Session<Seq<char>>)
    requires
        s.stage is LogRead,
        s.stage->LogRead_polls + 1 < startup_polls(),
    ensures
        ({
            let log = s.stage->LogRead_log;
            let (waiting, wait) = s.next(Reply::Contents(None));
            let (looking, look) = waiting.next(Reply::Done);
            &&& wait == Effect::<Seq<char>>::Sleep(POLL_INTERVAL_MS)
            &&& look == Effect::ReadFile(log)
            &&& forall|c: Seq<char>|
                tells_of_start(Some(c)) ==> #[trigger] looking.next(Reply::Contents(Some(c)))
                    == s.closes("Unity started."@)
        }),
{
}

/// A session stops watching a starting editor, and succeeds, only where its log
/// tells of the start or the editor lives at the last look.
pub proof fn watch_succeeds_only_with_a_reason(s: Session<Seq<char>>, reply: Reply<Seq<char>>)
    requires
        s.wf(),
        phase_of(s.stage) == Phase::Watch,
        expects(s.stage, reply),
        s.next(reply).0.stage is Closing || s.next(reply).0.stage is Over,
    ensures
        match s.stage {
            Stage::LogRead { .. } => reply matches Reply::Contents(c) && tells_of_start(c),
            Stage::Watched { polls, .. } => reply == Reply::<Seq<char>>::Flag(true) && polls + 1
                == startup_polls(),
            _ => false,
        },
{
}

/// Where a starting editor is found to have ended, its record is removed and the
/// auth hook is looked for. Without one the command fails. With one, the hook is
/// run for the editor, its output goes to a log of its own, and the editor is
/// started again where the hook succeeds; where the hook fails, the command
/// fails with what the hook has printed.
pub proof fn early_end_calls_the_hook(
    s: Session<Seq<char>>,
    unity: Seq<char>,
    stamp: Seq<char>,
    output: Seq<char>,
    exit: i32,
)
    requires
        s.stage is Watched,
        s.stage->Watched_unity == unity,
    ensures
        ({
            let (ended, _) = s.next(Reply::Flag(false));
            let (cleared, removal) = ended.next(Reply::Done);
            let (looking, look) = cleared.next(Reply::Done);
            let (there, _) = looking.next(Reply::Flag(true));
            let (named, prune) = there.next(Reply::Done);
            let (stamping, _) = named.next(Reply::Done);
            let (running, run) = stamping.next(Reply::Stamp(stamp));
            let (after, effect) = running.next(Reply::Shell { output, exit });
            &&& removal == Effect::RemoveFile(s.pid_path())
            &&& look == Effect::Exists(s.settings.auth_script)
            &&& looking.next(Reply::Flag(false)).1 matches Effect::Fail { message, .. }
                && message == "Unity license error"@
            &&& prune == Effect::PruneAuthLogs(paths::log_dir(s.settings.project))
            &&& run == (Effect::Shell {
                command: hook_command(unity, s.settings.auth_script),
                transcript: Some(
                    paths::joined(
                        paths::log_dir(s.settings.project),
                        paths::auth_log_name(stamp),
                    ),
                ),
            })
            &&& exit != 0 ==> effect == (Effect::Fail {
                message: hook_failure(output).0,
                detail: hook_failure(output).1,
            })
            &&& exit == 0 ==> after.next(Reply::Done) == s.prepares(unity, Attempt::Again)
        }),
{
}

} // verus!
