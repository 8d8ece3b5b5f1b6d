//! The command line.

use vstd::prelude::*;

use crate::session::Command;
use crate::text;

verus! {

/// What the command line asks for.
pub struct Invocation {
    pub command: Command<String>,
    /// Whether the editor is to run headless.
    pub batchmode: bool,
}

/// The first of some arguments that is not an option.
pub open spec fn subcommand(args: Seq<Seq<char>>) -> Option<Seq<char>>
    decreases args.len(),
{
    if args.len() == 0 {
        None
    } else if "-"@.is_prefix_of(args[0]) {
        subcommand(args.skip(1))
    } else {
        Some(args[0])
    }
}

/// The command that a subcommand stands for.
pub open spec fn command_of(sub: Option<Seq<char>>) -> Command<Seq<char>> {
    match sub {
        None => Command::Launch,
        Some(name) => if name == "launch"@ {
            Command::Launch
        } else if name == "focus"@ {
            Command::Focus
        } else if name == "quit"@ {
            Command::Quit
        } else if name == "__debug-env"@ {
            Command::DebugEnv
        } else {
            Command::Unknown(name)
        },
    }
}

/// The arguments after the launcher's own name.
pub open spec fn own_args(args: Seq<Seq<char>>) -> Seq<Seq<char>> {
    if args.len() == 0 {
        args
    } else {
        args.skip(1)
    }
}

/// Whether the arguments ask for a headless editor.
pub open spec fn asks_headless(args: Seq<Seq<char>>) -> bool {
    args.contains("-batchmode"@)
}

/// A headless editor is asked for by one argument, wherever it stands and
/// whatever stands around it.
pub proof fn headless_is_asked_for_anywhere(
    before: Seq<Seq<char>>,
    after: Seq<Seq<char>>,
    args: Seq<Seq<char>>,
)
    ensures
        asks_headless(before + seq!["-batchmode"@] + after),
        asks_headless(args) ==> exists|i: int|
            0 <= i < args.len() && #[trigger] args[i] == "-batchmode"@,
{
    let all = before + seq!["-batchmode"@] + after;
    assert(all[before.len() as int] == "-batchmode"@);
}

fn is_text(a: &String, b: &str) -> (r: bool)
    ensures
        r == (a@ == b@),
{
    *a == b.to_owned()
}

fn find_subcommand(args: &Vec<String>) -> (r: Option<String>)
    ensures
        r.deep_view() == subcommand(own_args(args.deep_view())),
{
    let ghost own = own_args(args.deep_view());
    let mut i: usize = 1;
    assert(own.skip(0) =~= own);
    while i < args.len()
        invariant
            1 <= i,
            own == own_args(args.deep_view()),
            i <= args@.len() || args@.len() == 0,
            args@.len() > 0 ==> subcommand(own) == subcommand(own.skip(i - 1)),
        decreases args@.len() - i,
    {
        assert(own[i - 1] == args@[i as int]@);
        if !text::starts_with(args[i].as_str(), "-") {
            return Some(args[i].clone());
        }
        assert(own.skip(i - 1).skip(1) =~= own.skip(i as int));
        i += 1;
    }
    assert(args@.len() > 0 ==> own.skip(i - 1) =~= seq![]);
    assert(args@.len() == 0 ==> own =~= seq![]);
    None
}

/// What the command line asks for; `args` begins with the launcher's own name.
pub fn parse(args: &Vec<String>) -> (r: Invocation)
    ensures
        r.command@ == command_of(subcommand(own_args(args.deep_view()))),
        r.batchmode == asks_headless(args.deep_view()),
{
    let mut batchmode: bool = false;
    for i in 0..args.len()
        invariant
            batchmode == exists|j: int| 0 <= j < i && #[trigger] args@[j]@ == "-batchmode"@,
    {
        if is_text(&args[i], "-batchmode") {
            batchmode = true;
        }
    }
    proof {
        let views = args.deep_view();
        if batchmode {
            let j = choose|j: int| 0 <= j < args@.len() && #[trigger] args@[j]@ == "-batchmode"@;
            assert(views[j] == "-batchmode"@);
        }
        if views.contains("-batchmode"@) {
            let j = choose|j: int| 0 <= j < views.len() && views[j] == "-batchmode"@;
            assert(args@[j]@ == "-batchmode"@);
        }
    }
    let command = match find_subcommand(args) {
        None => Command::Launch,
        Some(name) => if is_text(&name, "launch") {
            Command::Launch
        } else if is_text(&name, "focus") {
            Command::Focus
        } else if is_text(&name, "quit") {
            Command::Quit
        } else if is_text(&name, "__debug-env") {
            Command::DebugEnv
        } else {
            Command::Unknown(name)
        },
    };
    Invocation { command, batchmode }
}

/// Whether a command is about a project, so that the launcher has to be started
/// for one.
pub fn needs_project(command: &Command<String>) -> (r: bool)
    ensures
        r == !(command@ is DebugEnv),
{
    match command {
        Command::DebugEnv => false,
        _ => true,
    }
}

/// How the launcher is used.
pub fn print_usage() -> (r: Vec<String>)
    ensures
        r.deep_view() == seq![
            "Usage: unity-launcher [launch [-batchmode] | focus | quit]"@,
            "  launch (default) — launch Unity, or focus if already running"@,
            "  focus            — focus the running Unity for this project"@,
            "  quit             — send SIGTERM to the running Unity for this project"@,
        ],
{
    let r = vec![
        "Usage: unity-launcher [launch [-batchmode] | focus | quit]".to_owned(),
        "  launch (default) — launch Unity, or focus if already running".to_owned(),
        "  focus            — focus the running Unity for this project".to_owned(),
        "  quit             — send SIGTERM to the running Unity for this project".to_owned(),
    ];
    assert(r.deep_view() =~= seq![
        "Usage: unity-launcher [launch [-batchmode] | focus | quit]"@,
        "  launch (default) — launch Unity, or focus if already running"@,
        "  focus            — focus the running Unity for this project"@,
        "  quit             — send SIGTERM to the running Unity for this project"@,
    ]);
    r
}

/// Options do not matter for which command is meant: a command line with
/// options only is a launch.
pub proof fn options_do_not_name_a_command(args: Seq<Seq<char>>)
    requires
        forall|i: int| 0 <= i < args.len() ==> "-"@.is_prefix_of(#[trigger] args[i]),
    ensures
        command_of(subcommand(args)) is Launch,
    decreases args.len(),
{
    if args.len() > 0 {
        assert forall|i: int| 0 <= i < args.skip(1).len() implies "-"@.is_prefix_of(
            #[trigger] args.skip(1)[i],
        ) by {
            assert(args.skip(1)[i] == args[i + 1]);
        }
        options_do_not_name_a_command(args.skip(1));
    }
}

/// The first argument that is no option names the command, whatever options stand
/// before it and whatever follows it.
pub proof fn first_word_names_the_command(
    own: Seq<char>,
    options: Seq<Seq<char>>,
    name: Seq<char>,
    rest: Seq<Seq<char>>,
)
    requires
        forall|i: int|
            0 <= i < options.len() ==> (#[trigger] options[i]).len() > 0 && options[i][0] == '-',
        name.len() == 0 || name[0] != '-',
    ensures
        ({
            let command = command_of(subcommand(own_args(seq![own] + options + seq![name] + rest)));
            &&& name == "launch"@ ==> command is Launch
            &&& name == "focus"@ ==> command is Focus
            &&& name == "quit"@ ==> command is Quit
            &&& name == "__debug-env"@ ==> command is DebugEnv
            &&& name != "launch"@ && name != "focus"@ && name != "quit"@ && name
                != "__debug-env"@ ==> command == Command::Unknown(name)
        }),
        command_of(subcommand(own_args(seq![own] + options))) is Launch,
{
    let tail = options + seq![name] + rest;
    let args = seq![own] + options + seq![name] + rest;
    reveal_strlit("-");
    reveal_strlit("launch");
    reveal_strlit("focus");
    reveal_strlit("quit");
    reveal_strlit("__debug-env");
    assert("launch"@[0] != "focus"@[0]);
    assert("launch"@[0] != "quit"@[0]);
    assert("launch"@[0] != "__debug-env"@[0]);
    assert("focus"@[0] != "quit"@[0]);
    assert("focus"@[0] != "__debug-env"@[0]);
    assert("quit"@[0] != "__debug-env"@[0]);
    assert(args.skip(1) =~= tail);
    assert((seq![own] + options).skip(1) =~= options);
    lemma_subcommand(options, name, rest);
    assert forall|i: int| 0 <= i < options.len() implies "-"@.is_prefix_of(
        #[trigger] options[i],
    ) by {
        assert(options[i].subrange(0, 1) =~= "-"@);
    }
    options_do_not_name_a_command(options);
}

proof fn lemma_subcommand(options: Seq<Seq<char>>, name: Seq<char>, rest: Seq<Seq<char>>)
    requires
        forall|i: int|
            0 <= i < options.len() ==> (#[trigger] options[i]).len() > 0 && options[i][0] == '-',
        name.len() == 0 || name[0] != '-',
    ensures
        subcommand(options + seq![name] + rest) == Some(name),
    decreases options.len(),
{
    let args = options + seq![name] + rest;
    reveal_strlit("-");
    if options.len() == 0 {
        assert(args[0] == name);
        assert("-"@[0] == '-');
        if "-"@.is_prefix_of(name) {
            assert(name.subrange(0, 1)[0] == "-"@[0]);
        }
    } else {
        assert(args[0] == options[0]);
        assert(options[0].subrange(0, 1) =~= "-"@);
        assert(args.skip(1) =~= options.skip(1) + seq![name] + rest);
        lemma_subcommand(options.skip(1), name, rest);
    }
}

} // verus!
