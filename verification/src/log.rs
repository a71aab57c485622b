//! Log levels and terminal coloring; the writing itself happens outside
//! the library.

use vstd::prelude::*;
use vstd::string::StringExecFns;

verus! {

#[derive(Debug, Copy, Clone, PartialEq, Eq, Structural, Hash)]
pub enum LogLevel {
    Off,
    Error,
    Warning,
    Info,
    Debug,
}

/// The numeric severity of a level; smaller is more urgent.
pub open spec fn spec_severity(l: LogLevel) -> u8 {
    match l {
        LogLevel::Off => 0,
        LogLevel::Error => 1,
        LogLevel::Warning => 2,
        LogLevel::Info => 3,
        LogLevel::Debug => 4,
    }
}

impl LogLevel {
    pub fn severity(&self) -> (r: u8)
        ensures
            r == spec_severity(*self),
    {
        match self {
            LogLevel::Off => 0,
            LogLevel::Error => 1,
            LogLevel::Warning => 2,
            LogLevel::Info => 3,
            LogLevel::Debug => 4,
        }
    }
}

/// Whether a record at `level` is emitted under the configured `max`.
pub fn loggable(level: &LogLevel, max: &LogLevel) -> (r: bool)
    ensures
        r == (spec_severity(*level) <= spec_severity(*max)),
{
    level.severity() <= max.severity()
}

/// Terminal colors for log levels.
#[derive(Debug, Copy, Clone, PartialEq, Eq, Structural)]
pub enum Color {
    Plain,
    Red,
    Yellow,
    Blue,
    Green,
}

/// The ANSI prefix that selects a color.
pub open spec fn color_prefix(c: Color) -> Seq<char> {
    match c {
        Color::Red => "\u{001b}[31;1m"@,
        Color::Yellow => "\u{001b}[33;1m"@,
        Color::Blue => "\u{001b}[34;1m"@,
        Color::Green => "\u{001b}[32;1m"@,
        Color::Plain => "\u{001b}[0m"@,
    }
}

impl Color {
    /// Wraps a message in the ANSI escapes for a color.
    pub fn color(color: &Color, msg: &str) -> (r: String)
        ensures
            r@ == color_prefix(*color) + msg@ + "\u{001b}[0m"@,
    {
        let mut out = match color {
            Color::Red => "\u{001b}[31;1m".to_owned(),
            Color::Yellow => "\u{001b}[33;1m".to_owned(),
            Color::Blue => "\u{001b}[34;1m".to_owned(),
            Color::Green => "\u{001b}[32;1m".to_owned(),
            Color::Plain => "\u{001b}[0m".to_owned(),
        };
        out.append(msg);
        out.append("\u{001b}[0m");
        out
    }
}

} // verus!
