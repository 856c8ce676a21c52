//! Terminal colors as plain values: the fixed vocabulary that rule sets
//! accept, and the built-in color of each well-known log level.

use vstd::prelude::*;

use crate::text::chars_eq_str;
use crate::text::lower_of;
use crate::text::lower_string;
use crate::text::to_chars;

verus! {

/// The color vocabulary that pattern highlighting knows.
#[derive(Clone, Copy, Debug, PartialEq, Eq, Structural)]
pub enum Color {
    Black,
    Red,
    Green,
    Yellow,
    Blue,
    Magenta,
    Cyan,
    White,
}

/// The color that a (case-insensitive) color name denotes, if any.
pub open spec fn spec_parse_color(name: Seq<char>) -> Option<Color> {
    let l = lower_of(name);
    if l == "black"@ {
        Some(Color::Black)
    } else if l == "red"@ {
        Some(Color::Red)
    } else if l == "green"@ {
        Some(Color::Green)
    } else if l == "yellow"@ {
        Some(Color::Yellow)
    } else if l == "blue"@ {
        Some(Color::Blue)
    } else if l == "magenta"@ {
        Some(Color::Magenta)
    } else if l == "cyan"@ {
        Some(Color::Cyan)
    } else if l == "white"@ {
        Some(Color::White)
    } else {
        None
    }
}

/// Color-name parsing, executable form.
pub fn parse_color_name(name: &str) -> (r: Option<Color>)
    ensures
        r == spec_parse_color(name@),
{
    let lowered = lower_string(name);
    let l = to_chars(lowered.as_str());
    if chars_eq_str(&l, "black") {
        Some(Color::Black)
    } else if chars_eq_str(&l, "red") {
        Some(Color::Red)
    } else if chars_eq_str(&l, "green") {
        Some(Color::Green)
    } else if chars_eq_str(&l, "yellow") {
        Some(Color::Yellow)
    } else if chars_eq_str(&l, "blue") {
        Some(Color::Blue)
    } else if chars_eq_str(&l, "magenta") {
        Some(Color::Magenta)
    } else if chars_eq_str(&l, "cyan") {
        Some(Color::Cyan)
    } else if chars_eq_str(&l, "white") {
        Some(Color::White)
    } else {
        None
    }
}

/// The built-in color of a well-known log-level pattern, if any.
pub open spec fn spec_default_color(pattern: Seq<char>) -> Option<Color> {
    if pattern == "ERROR"@ {
        Some(Color::Red)
    } else if pattern == "WARN"@ {
        Some(Color::Yellow)
    } else if pattern == "WARNING"@ {
        Some(Color::Yellow)
    } else if pattern == "INFO"@ {
        Some(Color::Green)
    } else if pattern == "DEBUG"@ {
        Some(Color::Cyan)
    } else if pattern == "TRACE"@ {
        Some(Color::Magenta)
    } else if pattern == "FATAL"@ {
        Some(Color::Red)
    } else if pattern == "CRITICAL"@ {
        Some(Color::Red)
    } else {
        None
    }
}

/// Built-in color lookup, executable form.
pub fn default_color(pattern: &str) -> (r: Option<Color>)
    ensures
        r == spec_default_color(pattern@),
{
    let p = to_chars(pattern);
    if chars_eq_str(&p, "ERROR") {
        Some(Color::Red)
    } else if chars_eq_str(&p, "WARN") {
        Some(Color::Yellow)
    } else if chars_eq_str(&p, "WARNING") {
        Some(Color::Yellow)
    } else if chars_eq_str(&p, "INFO") {
        Some(Color::Green)
    } else if chars_eq_str(&p, "DEBUG") {
        Some(Color::Cyan)
    } else if chars_eq_str(&p, "TRACE") {
        Some(Color::Magenta)
    } else if chars_eq_str(&p, "FATAL") {
        Some(Color::Red)
    } else if chars_eq_str(&p, "CRITICAL") {
        Some(Color::Red)
    } else {
        None
    }
}

} // verus!
