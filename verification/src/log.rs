//! Levels of log messages.
use vstd::prelude::*;

verus! {

#[derive(Debug, Clone, Copy, PartialEq, Eq, PartialOrd, Ord, Structural)]
pub enum Level {
    Off,
    Trace,
    Debug,
    Warn,
    Error,
}

impl Level {
    /// The place of the level in the order from `Off` to `Error`.
    pub open spec fn rank_spec(self) -> u8 {
        match self {
            Level::Off => 0,
            Level::Trace => 1,
            Level::Debug => 2,
            Level::Warn => 3,
            Level::Error => 4,
        }
    }

    #[verifier::when_used_as_spec(rank_spec)]
    pub fn rank(self) -> (r: u8)
        ensures
            r == self.rank_spec(),
    {
        match self {
            Level::Off => 0,
            Level::Trace => 1,
            Level::Debug => 2,
            Level::Warn => 3,
            Level::Error => 4,
        }
    }

    pub fn as_str(&self) -> (s: &'static str)
        ensures
            s@ == match self {
                Level::Off => "OFF"@,
                Level::Trace => "TRACE"@,
                Level::Debug => "DEBUG"@,
                Level::Warn => "WARN"@,
                Level::Error => "ERROR"@,
            },
    {
        match self {
            Level::Off => "OFF",
            Level::Trace => "TRACE",
            Level::Debug => "DEBUG",
            Level::Warn => "WARN",
            Level::Error => "ERROR",
        }
    }

    /// The escape sequence that sets the colour of the level on a
    /// terminal.
    pub fn color_code(&self) -> (s: &'static str)
        ensures
            s@ == match self {
                Level::Off => ""@,
                Level::Trace => "\x1b[30m"@,
                Level::Debug => "\x1b[36m"@,
                Level::Warn => "\x1b[33m"@,
                Level::Error => "\x1b[31m"@,
            },
    {
        match self {
            Level::Off => "",
            Level::Trace => "\x1b[30m",
            Level::Debug => "\x1b[36m",
            Level::Warn => "\x1b[33m",
            Level::Error => "\x1b[31m",
        }
    }

    /// Whether a message of this level is shown under `threshold`: only
    /// levels above the threshold are.
    pub fn shown_under(self, threshold: Level) -> (r: bool)
        ensures
            r == (self.rank() > threshold.rank()),
    {
        self.rank() > threshold.rank()
    }
}

} // verus!
