use vstd::prelude::*;

use crate::level::LogLevel;

verus! {

/// How many times each verbosity flag was given on the command line.
#[derive(Clone, Copy, Debug, PartialEq, Eq, Structural)]
pub struct Cli {
    /// Be more quiet
    pub quiet: u8,
    /// Be more verbose
    pub verbose: u8,
}

/// The rank of `Info`, the level that no flag at all gives.
pub const DEFAULT_RANK: u8 = 3;

/// The level that `quiet` and `verbose` flags give: each verbose flag that no
/// quiet flag cancels moves one step up from `Info`, each uncancelled quiet
/// flag one step down, saturating at either end.
pub open spec fn resolved_level(quiet: int, verbose: int) -> LogLevel {
    LogLevel::of_rank(DEFAULT_RANK + verbose - quiet)
}

/// Resolves the flag counts of `cli` into one level, starting from `Info`.
/// Equal numbers of both flags cancel out; what is left of either moves the
/// level one step per flag, and the steps saturate at `Off` and `Trace`.
pub fn make_log_level(cli: &Cli) -> (r: LogLevel)
    ensures
        r == resolved_level(cli.quiet as int, cli.verbose as int),
{
    let q0: u8 = cli.quiet;
    let v0: u8 = cli.verbose;
    let mut log_level: LogLevel = LogLevel::Info;
    let mut quiet: u8 = cli.quiet;
    let mut verbose: u8 = cli.verbose;
    while quiet > 0 || verbose > 0
        invariant
            q0 == cli.quiet,
            v0 == cli.verbose,
            quiet <= q0,
            verbose <= v0,
            quiet > 0 && verbose > 0 ==> quiet == q0 && verbose == v0,
            quiet > 0 && verbose == 0 ==> v0 - q0 + quiet <= 0,
            verbose > 0 && quiet == 0 ==> v0 - verbose - q0 >= 0,
            log_level == LogLevel::of_rank(DEFAULT_RANK + (v0 - verbose) - (q0 - quiet)),
        decreases quiet + verbose,
    {
        if quiet > 0 && verbose > 0 {
            let both: u8 = if cli.quiet < cli.verbose {
                cli.quiet
            } else {
                cli.verbose
            };
            quiet -= both;
            verbose -= both;
        } else if quiet > 0 {
            quiet -= 1;
            log_level = log_level.decrease();
        } else {
            verbose -= 1;
            log_level = log_level.increase();
        }
    }
    log_level
}

/// Equal numbers of quiet and verbose flags cancel out completely: the level
/// stays at `Info`.
pub proof fn lemma_balanced_flags_resolve_to_info(quiet: nat, verbose: nat)
    requires
        quiet == verbose,
    ensures
        resolved_level(quiet as int, verbose as int) == LogLevel::Info,
{
}

} // verus!
