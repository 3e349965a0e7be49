//! Log levels.
use vstd::prelude::*;

verus! {

/// The level of a log, from the most to the least severe.
#[derive(Clone, Copy, PartialEq, Eq, Structural)]
pub enum LogLevel {
    Error,
    Warning,
    Info,
    Debug,
    Trace,
}

/// The rank of a level in the order of the levels, the most severe first.
pub open spec fn rank(level: LogLevel) -> int {
    match level {
        LogLevel::Error => 0,
        LogLevel::Warning => 1,
        LogLevel::Info => 2,
        LogLevel::Debug => 3,
        LogLevel::Trace => 4,
    }
}

/// The name of a level: `error`, `warning`, `info`, `debug` or `trace`.
pub open spec fn level_name(level: LogLevel) -> Seq<char> {
    match level {
        LogLevel::Error => seq!['e', 'r', 'r', 'o', 'r'],
        LogLevel::Warning => seq!['w', 'a', 'r', 'n', 'i', 'n', 'g'],
        LogLevel::Info => seq!['i', 'n', 'f', 'o'],
        LogLevel::Debug => seq!['d', 'e', 'b', 'u', 'g'],
        LogLevel::Trace => seq!['t', 'r', 'a', 'c', 'e'],
    }
}

impl LogLevel {
    /// The name of the level, as logs show it.
    pub fn name(&self) -> (r: String)
        ensures
            r@ == level_name(*self),
    {
        proof {
            reveal_strlit("error");
            reveal_strlit("warning");
            reveal_strlit("info");
            reveal_strlit("debug");
            reveal_strlit("trace");
        }
        match self {
            LogLevel::Error => "error".to_string(),
            LogLevel::Warning => "warning".to_string(),
            LogLevel::Info => "info".to_string(),
            LogLevel::Debug => "debug".to_string(),
            LogLevel::Trace => "trace".to_string(),
        }
    }

    /// Whether `self` comes before `other` in the order of the levels (is
    /// more severe).
    pub fn is_before(&self, other: &LogLevel) -> (r: bool)
        ensures
            r == (rank(*self) < rank(*other)),
    {
        self.rank_of() < other.rank_of()
    }

    fn rank_of(&self) -> (r: u8)
        ensures
            r == rank(*self),
    {
        match self {
            LogLevel::Error => 0,
            LogLevel::Warning => 1,
            LogLevel::Info => 2,
            LogLevel::Debug => 3,
            LogLevel::Trace => 4,
        }
    }
}

/// A log level as a value of the language.
#[derive(Clone, Copy, PartialEq, Eq, Structural)]
pub struct Level {
    pub level: LogLevel,
}

/// The least bound of levels as the language declares it: `trace`.
pub fn level_bounded_min() -> (r: Level)
    ensures
        r.level == LogLevel::Trace,
{
    Level { level: LogLevel::Trace }
}

/// The greatest bound of levels as the language declares it: `error`.
pub fn level_bounded_max() -> (r: Level)
    ensures
        r.level == LogLevel::Error,
{
    Level { level: LogLevel::Error }
}

/// The `error` level.
pub fn error() -> (r: Level)
    ensures
        r.level == LogLevel::Error,
{
    Level { level: LogLevel::Error }
}

/// The `warning` level.
pub fn warning() -> (r: Level)
    ensures
        r.level == LogLevel::Warning,
{
    Level { level: LogLevel::Warning }
}

/// The `info` level.
pub fn info() -> (r: Level)
    ensures
        r.level == LogLevel::Info,
{
    Level { level: LogLevel::Info }
}

/// The `debug` level.
pub fn debug() -> (r: Level)
    ensures
        r.level == LogLevel::Debug,
{
    Level { level: LogLevel::Debug }
}

/// The `trace` level.
pub fn trace() -> (r: Level)
    ensures
        r.level == LogLevel::Trace,
{
    Level { level: LogLevel::Trace }
}

} // verus!
