//! Plain data behind the command-line surface.
//!
//! Argument parsing itself happens outside the library; these types carry
//! the parsed values, and the verbosity-to-log-level mapping is pinned down
//! here.
use vstd::prelude::*;

verus! {

/// The log levels the verbosity flag selects between.
#[derive(Clone, Copy, PartialEq, Eq, Structural, Debug)]
pub enum LevelFilter {
    Warn,
    Info,
    Debug,
    Trace,
}

/// Options shared by every subcommand.
#[derive(Clone, Copy, PartialEq, Eq, Structural, Debug)]
pub struct GlobalOptions {
    /// How many times the verbosity flag was given.
    pub verbose: u8,
}

/// How a verbosity count maps to a log level.
pub open spec fn spec_log_level_of(verbose: u8) -> LevelFilter {
    if verbose == 0 {
        LevelFilter::Warn
    } else if verbose == 1 {
        LevelFilter::Info
    } else if verbose == 2 {
        LevelFilter::Debug
    } else {
        LevelFilter::Trace
    }
}

impl GlobalOptions {
    pub fn get_log_level_filter(&self) -> (r: LevelFilter)
        ensures
            r == spec_log_level_of(self.verbose),
    {
        if self.verbose == 0 {
            LevelFilter::Warn
        } else if self.verbose == 1 {
            LevelFilter::Info
        } else if self.verbose == 2 {
            LevelFilter::Debug
        } else {
            LevelFilter::Trace
        }
    }
}

/// The transpile subcommand (no options of its own).
pub struct TranspileCommand {}

/// The manifest-initialization subcommand.
pub struct InitCommand {}

/// The polyfill-fetch subcommand.
pub struct FetchCommand {}

/// The cache-cleaning subcommand.
pub struct CleanCommand {}

/// The chosen subcommand.
pub enum CliSubcommand {
    Transpile(TranspileCommand),
    Init(InitCommand),
    Fetch(FetchCommand),
    Clean(CleanCommand),
}

/// The whole parsed command line.
pub struct Dal {
    pub global_options: GlobalOptions,
    pub subcommand: CliSubcommand,
}

impl Dal {
    pub fn get_log_level_filter(&self) -> (r: LevelFilter)
        ensures
            r == spec_log_level_of(self.global_options.verbose),
    {
        self.global_options.get_log_level_filter()
    }
}

} // verus!
