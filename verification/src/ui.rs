//! Terminal colouring: wrap a text in the ANSI escape for a named colour,
//! or pass it through untouched when not writing to a terminal. Whether a
//! terminal is attached is the caller's knowledge.

use vstd::prelude::*;

use crate::strutil::str_eq;

verus! {

/// The ANSI code for a colour name; unknown names reset.
pub open spec fn spec_color_code(code: Seq<char>) -> Seq<char> {
    if code == "bold"@ {
        "1"@
    } else if code == "dim"@ {
        "2"@
    } else if code == "red"@ {
        "31"@
    } else if code == "green"@ {
        "32"@
    } else if code == "yellow"@ {
        "33"@
    } else if code == "blue"@ {
        "34"@
    } else if code == "magenta"@ {
        "35"@
    } else if code == "cyan"@ {
        "36"@
    } else {
        "0"@
    }
}

/// The text as shown: wrapped in the colour's escape on a terminal, bare
/// otherwise.
pub open spec fn spec_color(code: Seq<char>, text: Seq<char>, tty: bool) -> Seq<char> {
    if !tty {
        text
    } else {
        "\u{1b}["@ + spec_color_code(code) + "m"@ + text + "\u{1b}[0m"@
    }
}

/// Colour a text for the terminal (see [`spec_color`]).
pub fn color(code: &str, text: &str, tty: bool) -> (r: String)
    ensures
        r@ == spec_color(code@, text@, tty),
{
    if !tty {
        return String::from_str(text);
    }
    let code_str = if str_eq(code, "bold") {
        "1"
    } else if str_eq(code, "dim") {
        "2"
    } else if str_eq(code, "red") {
        "31"
    } else if str_eq(code, "green") {
        "32"
    } else if str_eq(code, "yellow") {
        "33"
    } else if str_eq(code, "blue") {
        "34"
    } else if str_eq(code, "magenta") {
        "35"
    } else if str_eq(code, "cyan") {
        "36"
    } else {
        "0"
    };
    let mut r = String::from_str("\u{1b}[");
    r.append(code_str);
    r.append("m");
    r.append(text);
    r.append("\u{1b}[0m");
    r
}

} // verus!
