//! Log levels of the library's messages.
use vstd::prelude::*;

verus! {

/// How serious a logged message is, from least to most.
#[derive(Copy, Clone, Debug, PartialEq, Eq, PartialOrd, Ord)]
pub enum Level {
    Debug,
    Info,
    Warn,
    Error,
}

/// The rank of a level: debug lowest, error highest.
pub open spec fn level_rank(l: Level) -> int {
    match l {
        Level::Debug => 0,
        Level::Info => 1,
        Level::Warn => 2,
        Level::Error => 3,
    }
}

/// The name of a level, as messages show it.
pub open spec fn level_name(l: Level) -> Seq<char> {
    match l {
        Level::Debug => "DEBUG"@,
        Level::Info => "INFO"@,
        Level::Warn => "WARN"@,
        Level::Error => "ERROR"@,
    }
}

impl Level {
    /// The name of the level, as messages show it.
    pub fn as_str(&self) -> (s: &'static str)
        ensures
            s@ == level_name(*self),
    {
        match self {
            Level::Debug => "DEBUG",
            Level::Info => "INFO",
            Level::Warn => "WARN",
            Level::Error => "ERROR",
        }
    }

    /// The name of the level, as an owned string.
    pub fn to_string(&self) -> (s: String)
        ensures
            s@ == level_name(*self),
    {
        String::from_str(self.as_str())
    }

    /// Whether this level is at least as serious as `other`.
    pub fn at_least(&self, other: &Level) -> (r: bool)
        ensures
            r == (level_rank(*self) >= level_rank(*other)),
    {
        let a: u8 = match self {
            Level::Debug => 0,
            Level::Info => 1,
            Level::Warn => 2,
            Level::Error => 3,
        };
        let b: u8 = match other {
            Level::Debug => 0,
            Level::Info => 1,
            Level::Warn => 2,
            Level::Error => 3,
        };
        a >= b
    }
}

/// The line that the default log handler prints: `[LEVEL] [module] message`.
pub open spec fn log_line(level: Level, module: Seq<char>, message: Seq<char>) -> Seq<char> {
    "["@ + level_name(level) + "] ["@ + module + "] "@ + message
}

/// The line that the default log handler prints for a message.
pub fn format_log_line(level: Level, module: &str, message: &str) -> (s: String)
    ensures
        s@ == log_line(level, module@, message@),
{
    let mut s = String::from_str("[");
    s.append(level.as_str());
    s.append("] [");
    s.append(module);
    s.append("] ");
    s.append(message);
    s
}

} // verus!
