use unity_launcher::cli::{needs_project, parse, print_usage};
use unity_launcher::session::Command;

fn args(list: &[&str]) -> Vec<String> {
    list.iter().map(|s| s.to_string()).collect()
}

#[test]
fn subcommands() {
    let cases: Vec<(&[&str], Command<String>, bool)> = vec![
        (&["ul"], Command::Launch, false),
        (&[], Command::Launch, false),
        (&["ul", "launch"], Command::Launch, false),
        (&["ul", "-batchmode"], Command::Launch, true),
        (&["ul", "launch", "-batchmode"], Command::Launch, true),
        (&["ul", "-x", "focus", "quit"], Command::Focus, false),
        (&["ul", "quit"], Command::Quit, false),
        (&["ul", "__debug-env"], Command::DebugEnv, false),
        (&["ul", "Launch"], Command::Unknown("Launch".to_string()), false),
        (&["ul", ""], Command::Unknown("".to_string()), false),
        (&["ul", "-quit"], Command::Launch, false),
        (&["-batchmode", "focus"], Command::Focus, true),
    ];
    for (list, command, batchmode) in cases {
        let r = parse(&args(list));
        assert_eq!(r.command, command, "{list:?}");
        assert_eq!(r.batchmode, batchmode, "{list:?}");
    }
}

#[test]
fn only_the_diagnostic_does_without_a_project() {
    assert!(!needs_project(&Command::DebugEnv));
    assert!(needs_project(&Command::Launch));
    assert!(needs_project(&Command::Unknown("x".to_string())));
}

#[test]
fn usage() {
    assert_eq!(
        print_usage(),
        [
            "Usage: unity-launcher [launch [-batchmode] | focus | quit]",
            "  launch (default) — launch Unity, or focus if already running",
            "  focus            — focus the running Unity for this project",
            "  quit             — send SIGTERM to the running Unity for this project",
        ]
    );
}
