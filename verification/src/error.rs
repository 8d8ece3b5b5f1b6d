//! What the launcher reports when it gives up.

use vstd::prelude::*;

use crate::script;
use crate::text;

verus! {

/// A failure: what went wrong, and more about it where there is more to say.
#[derive(Debug)]
pub struct AppError {
    pub message: String,
    pub detail: Option<String>,
}

impl View for AppError {
    type V = (Seq<char>, Option<Seq<char>>);

    open spec fn view(&self) -> (Seq<char>, Option<Seq<char>>) {
        (self.message@, self.detail.deep_view())
    }
}

impl AppError {
    /// A failure with nothing more to say.
    pub fn plain(message: &str) -> (r: AppError)
        ensures
            r@ == (message@, None::<Seq<char>>),
    {
        AppError { message: message.to_owned(), detail: None }
    }

    /// A failure with a detail.
    pub fn detailed(message: &str, detail: &str) -> (r: AppError)
        ensures
            r@ == (message@, Some(detail@)),
    {
        AppError { message: message.to_owned(), detail: Some(detail.to_owned()) }
    }
}

/// How a failure is shown.
pub struct ErrorReport {
    /// The lines for the standard error stream.
    pub lines: Vec<String>,
    /// The arguments for `osascript`, where an alert is to be shown too.
    pub alert: Option<Vec<String>>,
}

/// The lines that report a failure.
pub open spec fn error_lines(e: (Seq<char>, Option<Seq<char>>)) -> Seq<Seq<char>> {
    let first = seq!["Error: "@ + e.0];
    match e.1 {
        Some(d) => first.push("  "@ + d),
        None => first,
    }
}

/// The arguments for `osascript` that show a failure, where `gui` asks for that.
pub open spec fn alert_for(e: (Seq<char>, Option<Seq<char>>), gui: bool) -> Option<
    Seq<Seq<char>>,
> {
    if gui {
        Some(
            script::alert_args(
                e.0,
                match e.1 {
                    Some(d) => d,
                    None => Seq::empty(),
                },
            ),
        )
    } else {
        None
    }
}

/// An alert is shown only where it is asked for, and then for every failure,
/// with its message and its detail or an empty one.
pub proof fn alerts_are_opted_in(message: Seq<char>, detail: Option<Seq<char>>)
    ensures
        alert_for((message, detail), false) is None,
        alert_for((message, detail), true) == Some(
            seq![
                "-e"@,
                script::alert_script(
                    message,
                    if detail is Some {
                        detail->0
                    } else {
                        seq![]
                    },
                ),
            ],
        ),
{
}

/// How the failure `e` is shown, with an alert where `gui` asks for one.
pub fn show_error(e: &AppError, gui: bool) -> (r: ErrorReport)
    ensures
        r.lines.deep_view() == error_lines(e@),
        r.alert.deep_view() == alert_for(e@, gui),
{
    let mut lines: Vec<String> = Vec::new();
    lines.push(text::join2("Error: ", e.message.as_str()));
    let empty = String::new();
    let detail: &String = match &e.detail {
        Some(d) => {
            lines.push(text::join2("  ", d.as_str()));
            d
        },
        None => &empty,
    };
    assert(lines.deep_view() =~= error_lines(e@));
    let alert = if gui {
        Some(script::show_alert(e.message.as_str(), detail.as_str()))
    } else {
        None
    };
    ErrorReport { lines, alert }
}

/// A failure is reported with its whole message on the first line, and its whole
/// detail on the next one where it has a detail.
pub proof fn failures_are_reported_whole(message: Seq<char>, detail: Seq<char>)
    ensures
        error_lines((message, None)) == seq!["Error: "@ + message],
        error_lines((message, Some(detail))) == seq!["Error: "@ + message, "  "@ + detail],
{
    assert(error_lines((message, Some(detail))) =~= seq!["Error: "@ + message, "  "@ + detail]);
}

} // verus!
