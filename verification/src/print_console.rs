//! Coloured console text: labels and messages wrapped in the escape
//! sequences that a terminal reads as bold colour.

use vstd::prelude::*;
use vstd::string::StringExecFns;
use ansi_term::Colour;

verus! {

/// The foreground colours the console output uses.
#[derive(Clone, Copy, Debug, PartialEq, Eq, Structural)]
pub enum Hue {
    Red,
    Green,
    Yellow,
    Cyan,
}

/// The last digit of the foreground code of `hue`.
pub open spec fn hue_digit(hue: Hue) -> char {
    match hue {
        Hue::Red => '1',
        Hue::Green => '2',
        Hue::Yellow => '3',
        Hue::Cyan => '6',
    }
}

/// The escape sequence that switches to bold text in `hue`.
pub open spec fn bold_prefix(hue: Hue) -> Seq<char> {
    seq!['\x1b', '[', '1', ';', '3', hue_digit(hue), 'm']
}

/// The escape sequence that switches every style off again.
pub open spec fn reset_suffix() -> Seq<char> {
    seq!['\x1b', '[', '0', 'm']
}

/// `msg` as the terminal shows it in bold `hue`.
pub open spec fn painted(hue: Hue, msg: Seq<char>) -> Seq<char> {
    bold_prefix(hue) + msg + reset_suffix()
}

/// Calls `ansi_term`: `Colour::bold` for the style, `Style::paint` on `msg`, and
/// the `Display` of the painted string. Not proved here: that the text
/// written is the prefix `ESC [ 1 ; 3x m`, with `x` the colour's digit, then
/// `msg` unchanged, then the reset sequence `ESC [ 0 m`.
#[verifier::external_body]
fn paint_bold(hue: Hue, msg: &str) -> (text: String)
    ensures
        text@ == painted(hue, msg@),
{
    let colour = match hue {
        Hue::Red => Colour::Red,
        Hue::Green => Colour::Green,
        Hue::Yellow => Colour::Yellow,
        Hue::Cyan => Colour::Cyan,
    };
    colour.bold().paint(msg).to_string()
}

/// Turns a message into coloured text.
pub struct PrintColorize {}

impl PrintColorize {
    /// `msg` in bold green.
    pub fn print_green(msg: String) -> (text: String)
        ensures
            text@ == painted(Hue::Green, msg@),
    {
        paint_bold(Hue::Green, msg.as_str())
    }

    /// `msg` in bold yellow.
    pub fn print_yellow(msg: String) -> (text: String)
        ensures
            text@ == painted(Hue::Yellow, msg@),
    {
        paint_bold(Hue::Yellow, msg.as_str())
    }

    /// `msg` in bold cyan.
    pub fn print_cyan(msg: String) -> (text: String)
        ensures
            text@ == painted(Hue::Cyan, msg@),
    {
        paint_bold(Hue::Cyan, msg.as_str())
    }
}

/// A diagnostic for the error channel: a coloured label, a colon and the
/// message. `line` is the text to write, without the line break.
pub struct PrintError {
    pub line: String,
}

/// A diagnostic line: `label` in bold `hue`, then `": "`, then `msg`.
pub open spec fn diagnostic(hue: Hue, label: Seq<char>, msg: Seq<char>) -> Seq<char> {
    painted(hue, label) + seq![':', ' '] + msg
}

impl PrintError {
    /// The diagnostic `Error: msg`, its label in bold red.
    pub fn print_error(msg: String) -> (shown: Self)
        ensures
            shown.line@ == diagnostic(Hue::Red, "Error"@, msg@),
    {
        let mut line = paint_bold(Hue::Red, "Error");
        line.push(':');
        line.push(' ');
        line.append(msg.as_str());
        assert(line@ =~= diagnostic(Hue::Red, "Error"@, msg@));
        PrintError { line }
    }

    /// The diagnostic `Warning: msg`, its label in bold yellow.
    pub fn print_warning(msg: String) -> (shown: Self)
        ensures
            shown.line@ == diagnostic(Hue::Yellow, "Warning"@, msg@),
    {
        let mut line = paint_bold(Hue::Yellow, "Warning");
        line.push(':');
        line.push(' ');
        line.append(msg.as_str());
        assert(line@ =~= diagnostic(Hue::Yellow, "Warning"@, msg@));
        PrintError { line }
    }
}

} // verus!
