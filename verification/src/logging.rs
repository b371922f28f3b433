//! Log levels and log lines.

use vstd::prelude::*;

verus! {

/// How much a message matters.
#[derive(Clone, Copy, Debug, PartialEq, Eq, Structural)]
pub enum Level {
    Warn,
    Info,
    Debug,
}

impl Level {
    /// The higher, the less a message matters.
    pub open spec fn rank(self) -> int {
        match self {
            Level::Warn => 1,
            Level::Info => 2,
            Level::Debug => 3,
        }
    }

    pub open spec fn name(self) -> Seq<char> {
        match self {
            Level::Warn => "WARN"@,
            Level::Info => "INFO"@,
            Level::Debug => "DEBUG"@,
        }
    }

    /// How the level is shown.
    pub fn as_str(self) -> (r: &'static str)
        ensures
            r@ == self.name(),
    {
        match self {
            Level::Warn => "WARN",
            Level::Info => "INFO",
            Level::Debug => "DEBUG",
        }
    }
}

/// What is logged and what is not.
#[derive(Clone, Copy, Debug, PartialEq, Eq, Structural)]
pub struct Logger {
    pub max_level: Level,
}

/// The level that a verbosity stands for.
pub open spec fn level_for(verbosity: u8) -> Level {
    if verbosity == 0 {
        Level::Warn
    } else if verbosity == 1 {
        Level::Info
    } else {
        Level::Debug
    }
}

/// A logger for a verbosity.
pub fn init(verbosity: u8) -> (r: Logger)
    ensures
        r.max_level == level_for(verbosity),
{
    Logger {
        max_level: match verbosity {
            0 => Level::Warn,
            1 => Level::Info,
            _ => Level::Debug,
        },
    }
}

/// The line that a message is logged as.
pub open spec fn log_line(level: Level, message: Seq<char>) -> Seq<char> {
    level.name() + " tino: "@ + message + "\n"@
}

impl Logger {
    /// Whether messages of a level are logged.
    pub fn enabled(self, level: Level) -> (r: bool)
        ensures
            r == (level.rank() <= self.max_level.rank()),
    {
        match level {
            Level::Warn => true,
            Level::Info => match self.max_level {
                Level::Warn => false,
                Level::Info | Level::Debug => true,
            },
            Level::Debug => match self.max_level {
                Level::Warn | Level::Info => false,
                Level::Debug => true,
            },
        }
    }

    /// Whether messages of the least important level are logged.
    pub fn debug_enabled(self) -> (r: bool)
        ensures
            r == (self.max_level is Debug),
    {
        self.enabled(Level::Debug)
    }

    /// The line to write for a message, if it is logged.
    pub fn log(self, level: Level, message: &str) -> (r: Option<String>)
        ensures
            match r {
                Some(line) => level.rank() <= self.max_level.rank() && line@ == log_line(
                    level,
                    message@,
                ),
                None => level.rank() > self.max_level.rank(),
            },
    {
        if !self.enabled(level) {
            return None;
        }
        let mut line = level.as_str().to_owned();
        line.append(" tino: ");
        line.append(message);
        line.append("\n");
        Some(line)
    }
}

/// A message that is logged at some verbosity is logged at every higher one.
pub proof fn law_verbosity_only_adds(low: u8, high: u8, level: Level)
    requires
        low <= high,
        level.rank() <= level_for(low).rank(),
    ensures
        level.rank() <= level_for(high).rank(),
{
}

} // verus!
