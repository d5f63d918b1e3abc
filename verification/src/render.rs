use vstd::prelude::*;
use vstd::string::StringExecFns;

use crate::message::opt_string_matches;
use crate::message::Message;

verus! {

/// Text wrapped in an ANSI foreground colour: the escape prefix with the
/// given colour code, the text, then the reset suffix.
pub open spec fn ansi_painted(code: Seq<char>, text: Seq<char>) -> Seq<char> {
    "\u{1b}["@ + code + "m"@ + text + "\u{1b}[0m"@
}

/// Relies on `ansi_term::Colour::paint` and the `Display` rendering of the
/// painted string: red text is the input between the red foreground escape
/// prefix and the reset suffix.
#[verifier::external_body]
fn paint_red(s: &str) -> (r: String)
    ensures
        r@ == ansi_painted("31"@, s@),
{
    format!("{}", ansi_term::Colour::Red.paint(s))
}

/// Relies on `ansi_term::Colour::paint` and the `Display` rendering of the
/// painted string: yellow text is the input between the yellow foreground
/// escape prefix and the reset suffix.
#[verifier::external_body]
fn paint_yellow(s: &str) -> (r: String)
    ensures
        r@ == ansi_painted("33"@, s@),
{
    format!("{}", ansi_term::Colour::Yellow.paint(s))
}

/// Relies on `ansi_term::Colour::paint` and the `Display` rendering of the
/// painted string: white text is the input between the white foreground
/// escape prefix and the reset suffix.
#[verifier::external_body]
fn paint_white(s: &str) -> (r: String)
    ensures
        r@ == ansi_painted("37"@, s@),
{
    format!("{}", ansi_term::Colour::White.paint(s))
}

/// Relies on `ansi_term::Colour::paint` and the `Display` rendering of the
/// painted string: green text is the input between the green foreground
/// escape prefix and the reset suffix.
#[verifier::external_body]
fn paint_green(s: &str) -> (r: String)
    ensures
        r@ == ansi_painted("32"@, s@),
{
    format!("{}", ansi_term::Colour::Green.paint(s))
}

/// The label a log level renders under: `error` for level one, `warning`
/// for level two, `info` for every other level.
pub open spec fn log_label(level: u64) -> Seq<char> {
    if level == 1 {
        "error"@
    } else if level == 2 {
        "warning"@
    } else {
        "info"@
    }
}

/// The ANSI foreground colour code a log level renders in: red for level
/// one, yellow for level two, white for every other level.
pub open spec fn log_colour_code(level: u64) -> Seq<char> {
    if level == 1 {
        "31"@
    } else if level == 2 {
        "33"@
    } else {
        "37"@
    }
}

/// The rendered line of a log notification: its coloured bracketed label,
/// then the log text.
pub open spec fn rendered_log(level: u64, message: Seq<char>) -> Seq<char> {
    "["@ + ansi_painted(log_colour_code(level), log_label(level)) + "] "@ + message
}

/// Renders one log notification line.
pub fn render_log(level: u64, message: String) -> (line: String)
    ensures
        line@ == rendered_log(level, message@),
{
    let painted = if level == 1 {
        paint_red("error")
    } else if level == 2 {
        paint_yellow("warning")
    } else {
        paint_white("info")
    };
    let mut line: String = "[".to_owned();
    line.append(painted.as_str());
    line.append("] ");
    line.append(message.as_str());
    proof {
        assert(line@ =~= rendered_log(level, message@));
    }
    line
}

/// The rendered line of a terminal response: a success marker, then the
/// response's status text in green.
pub open spec fn rendered_response(status: Seq<char>) -> Seq<char> {
    "[success] "@ + ansi_painted("32"@, status)
}

/// Renders the terminal response line.
pub fn render_response(status: String, _exit_code: u64) -> (line: String)
    ensures
        line@ == rendered_response(status@),
{
    let painted = paint_green(status.as_str());
    let mut line: String = "[success] ".to_owned();
    line.append(painted.as_str());
    proof {
        assert(line@ =~= rendered_response(status@));
    }
    line
}

/// The line a message renders to: log notifications and responses each
/// have one; diagnostics notifications render to nothing.
pub open spec fn rendered_message(m: Message) -> Option<Seq<char>> {
    match m {
        Message::LogMessage { method: _, params } => Some(
            rendered_log(params.type_, params.message@),
        ),
        Message::Response { id: _, result } => Some(rendered_response(result.status@)),
        Message::PublishDiagnostics { .. } => None,
    }
}

/// Renders one decoded message to its output line, or to nothing for a
/// diagnostics notification.
pub fn render(message: Message) -> (r: Option<String>)
    ensures
        opt_string_matches(r, rendered_message(message)),
{
    match message {
        Message::LogMessage { method: _, params } => Some(
            render_log(params.type_, params.message),
        ),
        Message::Response { id: _, result } => Some(
            render_response(result.status, result.exit_code),
        ),
        Message::PublishDiagnostics { .. } => None,
    }
}

} // verus!
