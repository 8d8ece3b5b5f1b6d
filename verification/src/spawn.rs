//! What is run, with which arguments, and what comes of it.

use vstd::prelude::*;
use vstd::utf8::{decode_utf8, valid_utf8};

use crate::error::AppError;
use crate::text;

verus! {

/// How the editor runs.
#[derive(Clone, Copy, Debug, PartialEq, Eq, Structural)]
pub enum SpawnMode {
    /// In the foreground, cut off from the launcher's streams, so that the
    /// launcher can exit while the editor runs on.
    Detached,
    /// Headless, with the launcher's streams; the launcher waits for it.
    BatchSync,
}

/// One of the standard streams.
#[derive(Clone, Copy, Debug, PartialEq, Eq, Structural)]
pub enum Stream {
    Input,
    Output,
    Error,
}

/// How to start a process.
pub struct SpawnPlan {
    /// The file to run.
    pub program: String,
    /// The arguments, from the program's own name on.
    pub argv: Vec<String>,
    /// A variable to set in the environment, and its value.
    pub variable: (String, String),
    /// The streams to connect to the null device.
    pub silenced: Vec<Stream>,
}

/// That `s` can be handed to the system, which ends a string at its first NUL.
pub open spec fn no_nul(s: Seq<char>) -> bool {
    !s.contains('\0')
}

/// The arguments of the editor, from its own name on.
pub open spec fn editor_argv(
    unity: Seq<char>,
    project: Seq<char>,
    log: Seq<char>,
    mode: SpawnMode,
) -> Seq<Seq<char>> {
    let base = seq![
        unity,
        "-projectPath"@,
        project,
        "-disable-assembly-updater"@,
        "-logFile"@,
        log,
    ];
    match mode {
        SpawnMode::Detached => base,
        SpawnMode::BatchSync => base + seq!["-batchmode"@, "-nographics"@],
    }
}

/// The streams of an editor that are connected to the null device.
pub open spec fn silenced_streams(mode: SpawnMode) -> Seq<Stream> {
    match mode {
        SpawnMode::Detached => seq![Stream::Input, Stream::Output, Stream::Error],
        SpawnMode::BatchSync => seq![],
    }
}

/// A detached editor is cut off from every stream of the launcher, and a headless
/// one has all of them.
pub proof fn detached_editor_has_no_stream(stream: Stream)
    ensures
        silenced_streams(SpawnMode::Detached).contains(stream),
        !silenced_streams(SpawnMode::BatchSync).contains(stream),
{
    let all = silenced_streams(SpawnMode::Detached);
    assert(all[0] == Stream::Input && all[1] == Stream::Output && all[2] == Stream::Error);
}

/// How to start the editor `unity` on a project.
pub fn spawn_unity(unity: &str, project: &str, log: &str, mode: SpawnMode) -> (r: SpawnPlan)
    requires
        no_nul(unity@),
        no_nul(project@),
        no_nul(log@),
    ensures
        r.program@ == unity@,
        r.argv.deep_view() == editor_argv(unity@, project@, log@, mode),
        r.variable.0@ == "MONO_CRASH_NOFILE"@,
        r.variable.1@ == "1"@,
        r.silenced@ == silenced_streams(mode),
{
    let mut argv: Vec<String> = vec![
        unity.to_owned(),
        "-projectPath".to_owned(),
        project.to_owned(),
        "-disable-assembly-updater".to_owned(),
        "-logFile".to_owned(),
        log.to_owned(),
    ];
    let silenced: Vec<Stream> = match mode {
        SpawnMode::Detached => vec![Stream::Input, Stream::Output, Stream::Error],
        SpawnMode::BatchSync => {
            argv.push("-batchmode".to_owned());
            argv.push("-nographics".to_owned());
            Vec::new()
        },
    };
    assert(argv.deep_view() =~= editor_argv(unity@, project@, log@, mode));
    SpawnPlan {
        program: unity.to_owned(),
        argv,
        variable: ("MONO_CRASH_NOFILE".to_owned(), "1".to_owned()),
        silenced,
    }
}

/// A headless editor is told both to run in batch mode and to do without
/// graphics, after the arguments that every editor gets.
pub proof fn batch_mode_is_paired_with_no_graphics(
    unity: Seq<char>,
    project: Seq<char>,
    log: Seq<char>,
)
    ensures
        ({
            let batch = editor_argv(unity, project, log, SpawnMode::BatchSync);
            let detached = editor_argv(unity, project, log, SpawnMode::Detached);
            &&& batch.contains("-batchmode"@)
            &&& batch.contains("-nographics"@)
            &&& detached.is_prefix_of(batch)
            &&& batch.len() == detached.len() + 2
        }),
{
    let batch = editor_argv(unity, project, log, SpawnMode::BatchSync);
    assert(batch[6] == "-batchmode"@);
    assert(batch[7] == "-nographics"@);
}

/// What the system said to a start.
#[derive(Clone, Copy, Debug, PartialEq, Eq, Structural)]
pub enum SpawnReply {
    /// The start could not be prepared.
    NotPrepared,
    /// What `posix_spawn` returned, and the process id that it filled in.
    Returned { code: i32, pid: i32 },
}

/// The process id of a start, or what the launcher says instead.
pub open spec fn spawned(reply: SpawnReply) -> Result<i32, (Seq<char>, Option<Seq<char>>)> {
    match reply {
        SpawnReply::NotPrepared => Err(
            ("posix_spawn_file_actions_init failed"@, None::<Seq<char>>),
        ),
        SpawnReply::Returned { code, pid } => if code != 0 {
            Err(
                (
                    "Failed to spawn Unity"@,
                    Some("posix_spawn returned "@ + text::integer(code as int)),
                ),
            )
        } else {
            Ok(pid)
        },
    }
}

/// The process id of a start, or the failure that it was.
pub fn spawn_result(reply: SpawnReply) -> (r: Result<i32, AppError>)
    ensures
        match spawned(reply) {
            Ok(pid) => r == Ok::<i32, AppError>(pid),
            Err(e) => r matches Err(f) && f@ == e,
        },
{
    match reply {
        SpawnReply::NotPrepared => Err(AppError::plain("posix_spawn_file_actions_init failed")),
        SpawnReply::Returned { code, pid } => if code != 0 {
            Err(
                AppError::detailed(
                    "Failed to spawn Unity",
                    text::join2("posix_spawn returned ", text::integer_text(code).as_str()).as_str(),
                ),
            )
        } else {
            Ok(pid)
        },
    }
}

/// The arguments, from its own name on, of a program whose output is captured.
pub open spec fn capture_argv(path: Seq<char>, args: Seq<&str>) -> Seq<Seq<char>> {
    seq![path] + args.map_values(|a: &str| a@)
}

/// A program whose output is captured is run under its path with all of its
/// arguments, in order, and no others.
pub proof fn captured_program_gets_its_arguments(path: Seq<char>, args: Seq<&str>, i: int)
    ensures
        capture_argv(path, args).len() == args.len() + 1,
        capture_argv(path, args)[0] == path,
        0 <= i < args.len() ==> capture_argv(path, args)[i + 1] == args[i]@,
{
}

/// The arguments, from its own name on, of a program whose output is captured.
pub fn spawn_capture(path: &str, args: &[&str]) -> (r: Vec<String>)
    requires
        no_nul(path@),
        forall|i: int| 0 <= i < args@.len() ==> no_nul(#[trigger] args@[i]@),
    ensures
        r.deep_view() == capture_argv(path@, args@),
{
    let mut argv: Vec<String> = vec![path.to_owned()];
    assert(argv.deep_view() =~= seq![path@]);
    for i in 0..args.len()
        invariant
            argv.deep_view() == seq![path@] + args@.map_values(|a: &str| a@).take(i as int),
    {
        let ghost before = argv.deep_view();
        argv.push(args[i].to_owned());
        assert(argv.deep_view() =~= before.push(args@[i as int]@));
        assert(args@.map_values(|a: &str| a@).take(i + 1) =~= args@.map_values(|a: &str| a@).take(
            i as int,
        ).push(args@[i as int]@));
    }
    assert(args@.map_values(|a: &str| a@).take(args@.len() as int) =~= args@.map_values(
        |a: &str| a@,
    ));
    argv
}

// ---------------------------------------------------------------------------
// Shell commands
// ---------------------------------------------------------------------------

/// The shell that commands run in.
pub const SHELL: &'static str = "/bin/zsh";

/// The arguments of the shell that runs `cmd`.
pub fn shell_args(cmd: &str) -> (r: Vec<String>)
    ensures
        r.deep_view() == seq!["-c"@, cmd@],
{
    let r = vec!["-c".to_owned(), cmd.to_owned()];
    assert(r.deep_view() =~= seq!["-c"@, cmd@]);
    r
}

/// What a command in the shell printed, and its exit code.
pub struct ShellResult {
    pub output: String,
    pub exit: i32,
}

/// What the system hands back of a command: the bytes that it wrote to either
/// stream, and its exit code where it exited by itself.
pub struct ShellOutput {
    pub stdout: Vec<u8>,
    pub stderr: Vec<u8>,
    pub code: Option<i32>,
}

/// What `String::from_utf8_lossy` returns for some bytes.
pub uninterp spec fn utf8_lossy(bytes: Seq<u8>) -> Seq<char>;

/// `String::from_utf8_lossy`: the bytes as text. Bytes that are valid UTF-8 are
/// the text that they encode; others are replaced, in a way that is left open
/// here.
#[verifier::external_body]
fn from_utf8_lossy(bytes: &Vec<u8>) -> (r: String)
    ensures
        r@ == utf8_lossy(bytes@),
        valid_utf8(bytes@) ==> r@ == decode_utf8(bytes@),
{
    String::from_utf8_lossy(bytes.as_slice()).into_owned()
}

/// The output and the exit code of a command, from the text that it wrote to
/// either stream and the code that the system has for it.
pub open spec fn shell_outcome(stdout: Seq<char>, stderr: Seq<char>, code: Option<i32>) -> (
    Seq<char>,
    i32,
) {
    (stdout + stderr, code.unwrap_or(-1i32))
}

/// The output of a command is all that it wrote, the standard output first; its
/// exit code is the system's, and -1 where the command did not exit by itself.
pub proof fn shell_keeps_both_streams(
    stdout: Seq<char>,
    stderr: Seq<char>,
    code: Option<i32>,
)
    ensures
        ({
            let (output, exit) = shell_outcome(stdout, stderr, code);
            &&& output.len() == stdout.len() + stderr.len()
            &&& output.take(stdout.len() as int) == stdout
            &&& output.skip(stdout.len() as int) == stderr
            &&& code matches Some(c) ==> exit == c
            &&& code is None ==> exit == -1
        }),
{
    let output = stdout + stderr;
    assert(output.take(stdout.len() as int) =~= stdout);
    assert(output.skip(stdout.len() as int) =~= stderr);
}

/// The result of a command, from the text that it wrote to either stream.
pub fn shell_result(stdout: &str, stderr: &str, code: Option<i32>) -> (r: ShellResult)
    ensures
        (r.output@, r.exit) == shell_outcome(stdout@, stderr@, code),
{
    ShellResult { output: text::join2(stdout, stderr), exit: code.unwrap_or(-1) }
}

/// What came of a command in the shell.
pub struct ShellRun {
    pub result: ShellResult,
    /// The file that the output is to be written to.
    pub transcript: Option<String>,
}

/// What came of a command that is to be logged to `log`; `run` is `None` where
/// the shell could not be run, and then nothing is logged.
pub fn shell(run: Option<ShellOutput>, log: Option<String>) -> (r: ShellRun)
    ensures
        match run {
            Some(o) => {
                &&& (r.result.output@, r.result.exit) == shell_outcome(
                    utf8_lossy(o.stdout@),
                    utf8_lossy(o.stderr@),
                    o.code,
                )
                &&& valid_utf8(o.stdout@) && valid_utf8(o.stderr@) ==> r.result.output@
                    == decode_utf8(o.stdout@) + decode_utf8(o.stderr@)
                &&& r.transcript.deep_view() == log.deep_view()
            },
            None => {
                &&& r.result.output@ == Seq::<char>::empty()
                &&& r.result.exit == -1
                &&& r.transcript is None
            },
        },
{
    match run {
        Some(o) => ShellRun {
            result: shell_result(
                from_utf8_lossy(&o.stdout).as_str(),
                from_utf8_lossy(&o.stderr).as_str(),
                o.code,
            ),
            transcript: log,
        },
        None => ShellRun {
            result: ShellResult { output: String::new(), exit: -1 },
            transcript: None,
        },
    }
}

// ---------------------------------------------------------------------------
// The auth hook
// ---------------------------------------------------------------------------

/// One character inside single quotes: a single quote ends the quotes, stands
/// behind a backslash, and begins them again.
pub open spec fn quoted_char(c: char) -> Seq<char> {
    if c == '\'' {
        seq!['\'', '\\', '\'', '\'']
    } else {
        seq![c]
    }
}

/// `s` as it is written inside single quotes.
pub open spec fn quoted(s: Seq<char>) -> Seq<char>
    decreases s.len(),
{
    if s.len() == 0 {
        seq![]
    } else {
        quoted(s.drop_last()) + quoted_char(s.last())
    }
}

/// `s` as it is written inside single quotes.
pub fn quote(s: &str) -> (r: String)
    ensures
        r@ == quoted(s@),
{
    let t = text::chars(s);
    let mut out = String::new();
    for i in 0..t.len()
        invariant
            t@ == s@,
            out@ == quoted(t@.take(i as int)),
    {
        let c: char = t[i];
        assert(t@.take(i + 1).drop_last() =~= t@.take(i as int));
        if c == '\'' {
            out.push('\'');
            out.push('\\');
            out.push('\'');
        }
        out.push(c);
        assert(out@ =~= quoted(t@.take(i as int)) + quoted_char(c));
    }
    assert(t@.take(t.len() as int) =~= t@);
    out
}

/// The command that runs the auth hook `script` for the editor `unity`.
pub open spec fn hook_command(unity: Seq<char>, script: Seq<char>) -> Seq<char> {
    "UNITY='"@ + quoted(unity) + "' '"@ + quoted(script) + "'"@
}

/// The command that runs the auth hook `script` for the editor `unity`.
pub fn auth_command(unity: &str, script: &str) -> (r: String)
    ensures
        r@ == hook_command(unity@, script@),
{
    let head = text::join3("UNITY='", quote(unity).as_str(), "' '");
    text::join3(head.as_str(), quote(script).as_str(), "'")
}

/// How many characters of `s` belong to a word of the shell, where `s` begins
/// inside single quotes or outside any quotes.
pub open spec fn word_len(s: Seq<char>, inside: bool) -> nat
    decreases s.len(),
{
    if s.len() == 0 {
        0
    } else if s[0] == '\'' {
        1 + word_len(s.skip(1), !inside)
    } else if inside {
        1 + word_len(s.skip(1), true)
    } else if s[0] == '\\' && s.len() > 1 {
        2 + word_len(s.skip(2), false)
    } else if s[0] == ' ' {
        0
    } else {
        1 + word_len(s.skip(1), false)
    }
}

/// The text that a word of the shell stands for, where `s` begins inside single
/// quotes or outside any quotes.
pub open spec fn word_text(s: Seq<char>, inside: bool) -> Seq<char>
    decreases s.len(),
{
    if s.len() == 0 {
        seq![]
    } else if s[0] == '\'' {
        word_text(s.skip(1), !inside)
    } else if inside {
        seq![s[0]] + word_text(s.skip(1), true)
    } else if s[0] == '\\' && s.len() > 1 {
        seq![s[1]] + word_text(s.skip(2), false)
    } else {
        seq![s[0]] + word_text(s.skip(1), false)
    }
}

proof fn lemma_quoted_front(s: Seq<char>)
    requires
        s.len() > 0,
    ensures
        quoted(s) == quoted_char(s[0]) + quoted(s.skip(1)),
    decreases s.len(),
{
    reveal_with_fuel(quoted, 2);
    if s.len() == 1 {
        assert(s.drop_last() =~= seq![]);
        assert(s.skip(1) =~= seq![]);
    } else {
        let front = s.drop_last();
        lemma_quoted_front(front);
        assert(front.skip(1) =~= s.skip(1).drop_last());
        assert(s.skip(1).last() == s.last());
    }
    assert(quoted(s) =~= quoted_char(s[0]) + quoted(s.skip(1)));
}

proof fn lemma_quoted_char(c: char, t: Seq<char>)
    ensures
        word_len(quoted_char(c) + t, true) == quoted_char(c).len() + word_len(t, true),
        word_text(quoted_char(c) + t, true) == seq![c] + word_text(t, true),
{
    let whole = quoted_char(c) + t;
    if c == '\'' {
        let second = whole.skip(1);
        let fourth = second.skip(2);
        assert(second =~= seq!['\\', '\'', '\''] + t);
        assert(fourth =~= seq!['\''] + t);
        assert(fourth.skip(1) =~= t);
        assert(word_len(fourth, false) == 1 + word_len(t, true));
        assert(word_len(second, false) == 2 + word_len(fourth, false));
        assert(word_text(fourth, false) == word_text(t, true));
        assert(word_text(second, false) == seq![c] + word_text(fourth, false));
    } else {
        assert(whole.skip(1) =~= t);
    }
}

proof fn lemma_quoted_word(s: Seq<char>, rest: Seq<char>)
    requires
        rest.len() > 0 ==> rest[0] == ' ',
    ensures
        word_len(quoted(s) + seq!['\''] + rest, true) == quoted(s).len() + 1,
        word_text(quoted(s) + seq!['\''], true) == s,
    decreases s.len(),
{
    let whole = quoted(s) + seq!['\''] + rest;
    let word = quoted(s) + seq!['\''];
    if s.len() == 0 {
        assert(whole.skip(1) =~= rest);
        assert(word_len(rest, false) == 0);
        assert(word.skip(1) =~= seq![]);
        assert(word_text(word.skip(1), false) =~= s);
    } else {
        let tail = s.skip(1);
        lemma_quoted_front(s);
        lemma_quoted_word(tail, rest);
        assert(whole =~= quoted_char(s[0]) + (quoted(tail) + seq!['\''] + rest));
        assert(word =~= quoted_char(s[0]) + (quoted(tail) + seq!['\'']));
        lemma_quoted_char(s[0], quoted(tail) + seq!['\''] + rest);
        lemma_quoted_char(s[0], quoted(tail) + seq!['\'']);
        assert(seq![s[0]] + tail =~= s);
    }
}

/// A path between single quotes is one word of the shell, whatever characters
/// it holds, and the word stands for the path.
pub proof fn quoted_path_is_one_word(s: Seq<char>, rest: Seq<char>)
    requires
        rest.len() > 0 ==> rest[0] == ' ',
    ensures
        ({
            let word = seq!['\''] + quoted(s) + seq!['\''];
            &&& word_len(word + rest, false) == word.len()
            &&& word_text(word, false) == s
        }),
{
    let word = seq!['\''] + quoted(s) + seq!['\''];
    lemma_quoted_word(s, rest);
    assert((word + rest).skip(1) =~= quoted(s) + seq!['\''] + rest);
    assert(word.skip(1) =~= quoted(s) + seq!['\'']);
}

/// The command that runs the auth hook sets `UNITY` to the editor's path, in one
/// word, and then names the hook, in one word and nothing else.
pub proof fn hook_is_run_for_the_editor(unity: Seq<char>, script: Seq<char>)
    ensures
        ({
            let command = hook_command(unity, script);
            let value = command.skip("UNITY="@.len() as int);
            let n = word_len(value, false) as int;
            let hook = value.skip(n + 1);
            &&& "UNITY="@.is_prefix_of(command)
            &&& n < value.len() && value[n] == ' '
            &&& word_text(value.take(n), false) == unity
            &&& word_len(hook, false) == hook.len()
            &&& word_text(hook, false) == script
        }),
{
    reveal_strlit("UNITY=");
    reveal_strlit("UNITY='");
    reveal_strlit("' '");
    reveal_strlit("'");
    let command = hook_command(unity, script);
    let value = command.skip(6);
    let first = seq!['\''] + quoted(unity) + seq!['\''];
    let second = seq!['\''] + quoted(script) + seq!['\''];
    assert("UNITY="@ =~= command.take(6));
    assert(value =~= first + (seq![' '] + second));
    quoted_path_is_one_word(unity, seq![' '] + second);
    quoted_path_is_one_word(script, seq![]);
    assert(value.take(first.len() as int) =~= first);
    assert(value.skip(first.len() as int + 1) =~= second);
    assert(second + Seq::<char>::empty() =~= second);
}

/// What the launcher says when the auth hook has failed: the first line of its
/// output that begins with `ERROR:`, and all further ones as a detail.
pub open spec fn hook_failure(output: Seq<char>) -> (Seq<char>, Option<Seq<char>>) {
    let errors = text::tagged(text::lines_of(output), "ERROR:"@);
    (
        if errors.len() > 0 {
            errors[0]
        } else {
            "Auth hook failed"@
        },
        if errors.len() > 1 {
            Some(text::joined_lines(errors.skip(1)))
        } else {
            None
        },
    )
}

/// The failure that the output of a failed auth hook tells of.
pub fn auth_failure(output: &str) -> (r: AppError)
    ensures
        r@ == hook_failure(output@),
{
    let errors = text::tagged_lines(output, "ERROR:");
    let message = if errors.len() > 0 {
        assert(errors.deep_view()[0] == errors@[0]@);
        errors[0].clone()
    } else {
        "Auth hook failed".to_owned()
    };
    let detail = if errors.len() > 1 {
        Some(text::join_lines(&errors, 1))
    } else {
        None
    };
    AppError { message, detail }
}

/// Every line of the auth hook's output that begins with `ERROR:` is surfaced:
/// the first one as the message, each further one in the detail.
pub proof fn every_error_is_surfaced(output: Seq<char>, i: int)
    requires
        0 <= i < text::tagged(text::lines_of(output), "ERROR:"@).len(),
    ensures
        ({
            let errors = text::tagged(text::lines_of(output), "ERROR:"@);
            let (message, detail) = hook_failure(output);
            &&& i == 0 ==> message == errors[i]
            &&& i > 0 ==> (detail matches Some(d) && text::occurs_in(d, errors[i]))
        }),
{
    let errors = text::tagged(text::lines_of(output), "ERROR:"@);
    if i > 0 {
        text::every_joined_line_occurs(errors.skip(1), i - 1);
    }
}

// ---------------------------------------------------------------------------
// What is run
// ---------------------------------------------------------------------------

/// An editor is told its project and its log, right after the words for them,
/// and is run under its own path; only a headless one is told more.
pub proof fn editor_is_told_project_and_log(
    unity: Seq<char>,
    project: Seq<char>,
    log: Seq<char>,
    mode: SpawnMode,
)
    ensures
        ({
            let argv = editor_argv(unity, project, log, mode);
            &&& argv[0] == unity
            &&& argv[1] == "-projectPath"@ && argv[2] == project
            &&& argv[3] == "-disable-assembly-updater"@
            &&& argv[4] == "-logFile"@ && argv[5] == log
            &&& mode == SpawnMode::Detached ==> argv.len() == 6
            &&& mode == SpawnMode::BatchSync ==> argv.len() == 8 && argv[6] == "-batchmode"@
                && argv[7] == "-nographics"@
        }),
{
}

/// A start succeeds just where the system returns zero, with the process id that
/// the system has filled in.
pub proof fn start_succeeds_with_code_zero(code: i32, pid: i32)
    ensures
        spawned(SpawnReply::Returned { code, pid }) is Ok <==> code == 0,
        spawned(SpawnReply::Returned { code: 0, pid })->Ok_0 == pid,
        code != 0 ==> spawned(SpawnReply::Returned { code, pid })->Err_0 == (
            "Failed to spawn Unity"@,
            Some("posix_spawn returned "@ + text::integer(code as int)),
        ),
        spawned(SpawnReply::NotPrepared)->Err_0.0 == "posix_spawn_file_actions_init failed"@,
        spawned(SpawnReply::NotPrepared)->Err_0.1 is None,
{
}

/// A failed auth hook that prints no line with `ERROR:` at its beginning is
/// reported as such; a first line with it is the message, all of it, and the
/// further ones, joined, are the detail.
pub proof fn first_error_is_the_message(
    a: Seq<char>,
    message: Seq<char>,
    rest: Seq<char>,
    other: Seq<char>,
)
    requires
        text::all_white(a),
        text::bare(message),
        !(a + message).contains('\n'),
        a.len() + message.len() > 0 ==> (a + message)[a.len() + message.len() - 1] != '\r',
        !other.contains('\n'),
        other.len() > 0 ==> other[other.len() - 1] != '\r',
        !"ERROR:"@.is_prefix_of(other),
    ensures
        hook_failure("ERROR:"@ + a + message + seq!['\n'] + rest).0 == message,
        ({
            let further = text::tagged(text::lines_of(rest), "ERROR:"@);
            hook_failure("ERROR:"@ + a + message + seq!['\n'] + rest).1 == (if further.len() == 0 {
                None
            } else {
                Some(text::joined_lines(further))
            })
        }),
        hook_failure(other + seq!['\n'] + rest) == hook_failure(rest),
        hook_failure(other) == ("Auth hook failed"@, None::<Seq<char>>),
{
    let tag = "ERROR:"@;
    reveal_strlit("ERROR:");
    let line = tag + a + message;
    let body = a + message;
    assert(line =~= tag + body);
    assert forall|i: int| 0 <= i < line.len() implies line[i] != '\n' by {
        if i >= tag.len() {
            assert(body.contains(body[i - tag.len()]));
        }
    }
    assert(tag + a + message + Seq::<char>::empty() =~= line);
    text::tagged_line_has_its_value(tag, a, message, seq![], other);
    text::first_line_comes_first(line, rest);
    text::first_line_comes_first(other, rest);
    text::text_without_line_feed_is_one_line(other);
    text::tags_are_read_line_by_line(seq![line], text::lines_of(rest), tag);
    text::tags_are_read_line_by_line(seq![other], text::lines_of(rest), tag);
    let further = text::tagged(text::lines_of(rest), tag);
    assert(Seq::<Seq<char>>::empty() + further =~= further);
    assert((seq![message] + further).skip(1) =~= further);
}

} // verus!
