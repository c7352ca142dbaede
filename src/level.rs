use vstd::prelude::*;

verus! {

/// The verbosity of a log message or of a configuration, from the quietest
/// (`Off`) to the most verbose (`Trace`).
#[derive(Clone, Copy, Debug, PartialEq, Eq, Structural, PartialOrd, Ord, Hash)]
pub enum LogLevel {
    Off,
    Error,
    Warn,
    Info,
    Debug,
    Trace,
}

/// The rank of `Trace`, the most verbose level.
pub const MAX_RANK: u8 = 5;

impl LogLevel {
    /// Position of the level in the fixed order `Off < Error < ... < Trace`.
    pub open spec fn rank(self) -> int {
        match self {
            LogLevel::Off => 0,
            LogLevel::Error => 1,
            LogLevel::Warn => 2,
            LogLevel::Info => 3,
            LogLevel::Debug => 4,
            LogLevel::Trace => 5,
        }
    }

    /// The level at position `r`, where positions below `Off` saturate to
    /// `Off` and positions above `Trace` saturate to `Trace`.
    pub open spec fn of_rank(r: int) -> LogLevel {
        if r <= 0 {
            LogLevel::Off
        } else if r == 1 {
            LogLevel::Error
        } else if r == 2 {
            LogLevel::Warn
        } else if r == 3 {
            LogLevel::Info
        } else if r == 4 {
            LogLevel::Debug
        } else {
            LogLevel::Trace
        }
    }

    /// One step more verbose, saturating at `Trace`.
    pub open spec fn increased(self) -> LogLevel {
        LogLevel::of_rank(self.rank() + 1)
    }

    /// One step less verbose, saturating at `Off`.
    pub open spec fn decreased(self) -> LogLevel {
        LogLevel::of_rank(self.rank() - 1)
    }

    /// A message at level `self` passes a configuration at level `configured`.
    pub open spec fn enabled_under(self, configured: LogLevel) -> bool {
        self.rank() <= configured.rank()
    }

    /// The position of the level, as `rank` states it.
    pub fn ordinal(&self) -> (r: u8)
        ensures
            r == self.rank(),
    {
        match self {
            LogLevel::Off => 0,
            LogLevel::Error => 1,
            LogLevel::Warn => 2,
            LogLevel::Info => 3,
            LogLevel::Debug => 4,
            LogLevel::Trace => 5,
        }
    }

    /// Whether a message at this level is written when the configuration is
    /// at `configured_log_level`.
    pub fn is_enabled(&self, configured_log_level: LogLevel) -> (r: bool)
        ensures
            r == self.enabled_under(configured_log_level),
    {
        self.ordinal() <= configured_log_level.ordinal()
    }

    pub fn increase(self) -> (r: LogLevel)
        ensures
            r == self.increased(),
    {
        match self {
            LogLevel::Off => LogLevel::Error,
            LogLevel::Error => LogLevel::Warn,
            LogLevel::Warn => LogLevel::Info,
            LogLevel::Info => LogLevel::Debug,
            LogLevel::Debug => LogLevel::Trace,
            LogLevel::Trace => LogLevel::Trace,
        }
    }

    pub fn decrease(self) -> (r: LogLevel)
        ensures
            r == self.decreased(),
    {
        match self {
            LogLevel::Off => LogLevel::Off,
            LogLevel::Error => LogLevel::Off,
            LogLevel::Warn => LogLevel::Error,
            LogLevel::Info => LogLevel::Warn,
            LogLevel::Debug => LogLevel::Info,
            LogLevel::Trace => LogLevel::Debug,
        }
    }
}

/// Each level sits at its own rank: `of_rank` undoes `rank`.
pub proof fn lemma_of_rank_rank(x: LogLevel)
    ensures
        LogLevel::of_rank(x.rank()) == x,
        0 <= x.rank() <= MAX_RANK,
{
}

/// Stepping up and then down returns to the level itself, except at `Trace`,
/// where the step up saturates and the step down then lands on `Debug`: the
/// round trip never ends more verbose than where it started.
pub proof fn lemma_increase_then_decrease(x: LogLevel)
    ensures
        x.increased().decreased() == x || x.increased().decreased() == x.decreased(),
        x.increased().decreased().rank() <= x.rank(),
        x.increased().decreased() == x <==> x != LogLevel::Trace,
        LogLevel::Trace.increased() == LogLevel::Trace,
        LogLevel::Off.decreased() == LogLevel::Off,
{
}

} // verus!
