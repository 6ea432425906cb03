//! Severities of log lines.

use vstd::prelude::*;

verus! {

/// A severity, the least grave first.
#[derive(Debug, Clone, Copy, PartialEq, Eq, Structural)]
pub enum LogLevel {
    Trace,
    Debug,
    Info,
    Warn,
    Error,
}

impl LogLevel {
    /// How grave: zero is the least.
    pub open spec fn gravity(self) -> int {
        match self {
            LogLevel::Trace => 0,
            LogLevel::Debug => 1,
            LogLevel::Info => 2,
            LogLevel::Warn => 3,
            LogLevel::Error => 4,
        }
    }

    /// The name of a severity.
    pub open spec fn name(self) -> Seq<char> {
        match self {
            LogLevel::Trace => "TRACE"@,
            LogLevel::Debug => "DEBUG"@,
            LogLevel::Info => "INFO"@,
            LogLevel::Warn => "WARN"@,
            LogLevel::Error => "ERROR"@,
        }
    }

    /// The mark before a log line, padded to one width.
    pub open spec fn mark(self) -> Seq<char> {
        match self {
            LogLevel::Trace => "TRACE"@,
            LogLevel::Debug => "DEBUG"@,
            LogLevel::Info => "INFO "@,
            LogLevel::Warn => "WARN "@,
            LogLevel::Error => "ERROR"@,
        }
    }

    /// How grave: zero is the least.
    fn rank(self) -> (rank: u8)
        ensures
            rank == self.gravity(),
    {
        match self {
            LogLevel::Trace => 0,
            LogLevel::Debug => 1,
            LogLevel::Info => 2,
            LogLevel::Warn => 3,
            LogLevel::Error => 4,
        }
    }

    /// The name of a severity.
    pub fn label(self) -> (label: &'static str)
        ensures
            label@ == self.name(),
    {
        match self {
            LogLevel::Trace => "TRACE",
            LogLevel::Debug => "DEBUG",
            LogLevel::Info => "INFO",
            LogLevel::Warn => "WARN",
            LogLevel::Error => "ERROR",
        }
    }

    /// Whether a line of this severity is shown where `least` is the least
    /// that is.
    pub fn is_shown_from(self, least: LogLevel) -> (shown: bool)
        ensures
            shown == (self.gravity() >= least.gravity()),
    {
        self.rank() >= least.rank()
    }

    /// All severities, the least first.
    pub fn all() -> (levels: [LogLevel; 5])
        ensures
            levels@ == seq![
                LogLevel::Trace,
                LogLevel::Debug,
                LogLevel::Info,
                LogLevel::Warn,
                LogLevel::Error,
            ],
    {
        [LogLevel::Trace, LogLevel::Debug, LogLevel::Info, LogLevel::Warn, LogLevel::Error]
    }
}

/// The mark of a severity before a log line, padded to one width.
pub fn level_glyph(level: LogLevel) -> (glyph: &'static str)
    ensures
        glyph@ == level.mark(),
{
    match level {
        LogLevel::Trace => "TRACE",
        LogLevel::Debug => "DEBUG",
        LogLevel::Info => "INFO ",
        LogLevel::Warn => "WARN ",
        LogLevel::Error => "ERROR",
    }
}

/// Severities grow from a trace to an error, each graver than the one before; each
/// has a name of its own, and its mark is that name, padded to five characters.
pub proof fn severities_are_ordered(a: LogLevel, b: LogLevel)
    ensures
        LogLevel::Trace.gravity() < LogLevel::Debug.gravity() < LogLevel::Info.gravity()
            < LogLevel::Warn.gravity() < LogLevel::Error.gravity(),
        a.gravity() == b.gravity() <==> a == b,
        a.mark().len() == 5,
        a.mark() == a.name() || a.mark() == a.name().push(' '),
{
    reveal_strlit("TRACE");
    reveal_strlit("DEBUG");
    reveal_strlit("INFO ");
    reveal_strlit("WARN ");
    reveal_strlit("INFO");
    reveal_strlit("WARN");
    reveal_strlit("ERROR");
    assert("INFO "@ =~= "INFO"@.push(' '));
    assert("WARN "@ =~= "WARN"@.push(' '));
}

} // verus!
