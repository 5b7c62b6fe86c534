//! How much a command line tool says while it works.

use vstd::prelude::*;

verus! {

/// Verbosity level for logging
#[derive(Debug, Clone, Copy, PartialEq, Eq, Structural, Hash)]
pub enum VerbosityLevel {
    /// No verbose output (default)
    Default,
    /// Verbose output (-v)
    Verbose,
    /// Very verbose output (-vv)
    VeryVerbose,
}

impl Default for VerbosityLevel {
    fn default() -> (r: Self)
        ensures
            r == VerbosityLevel::Default,
    {
        VerbosityLevel::Default
    }
}

/// The most detailed level of messages that is let through.
#[derive(Debug, Clone, Copy, PartialEq, Eq, Structural, Hash)]
pub enum LevelFilter {
    Off,
    Error,
    Warn,
    Info,
    Debug,
    Trace,
}

impl VerbosityLevel {
    /// The filter that goes with the level: informational messages by
    /// default, debugging ones when verbose, and all when very verbose.
    #[must_use]
    pub fn log_level_filter(self) -> (r: LevelFilter)
        ensures
            r == (match self {
                VerbosityLevel::Default => LevelFilter::Info,
                VerbosityLevel::Verbose => LevelFilter::Debug,
                VerbosityLevel::VeryVerbose => LevelFilter::Trace,
            }),
    {
        match self {
            Self::Default => LevelFilter::Info,
            Self::Verbose => LevelFilter::Debug,
            Self::VeryVerbose => LevelFilter::Trace,
        }
    }
}

/// Verbosity flag that supports -v and -vv only
#[derive(Debug, Clone, Copy, PartialEq, Eq, Structural)]
pub struct Verbosity {
    /// How often the flag was given.
    pub verbose: u8,
}

impl Verbosity {
    /// The flag, given `verbose` times.
    #[must_use]
    pub fn new(verbose: u8) -> (r: Self)
        ensures
            r.verbose == verbose,
    {
        Self { verbose }
    }

    /// Get the verbosity level: the flag counts up to two times.
    #[must_use]
    pub fn verbosity_level(&self) -> (r: VerbosityLevel)
        ensures
            r == (if self.verbose == 0 {
                VerbosityLevel::Default
            } else if self.verbose == 1 {
                VerbosityLevel::Verbose
            } else {
                VerbosityLevel::VeryVerbose
            }),
    {
        if self.verbose == 0 {
            VerbosityLevel::Default
        } else if self.verbose == 1 {
            VerbosityLevel::Verbose
        } else {
            VerbosityLevel::VeryVerbose
        }
    }

    /// Get the log level filter
    #[must_use]
    pub fn log_level_filter(&self) -> (r: LevelFilter)
        ensures
            r == (if self.verbose == 0 {
                LevelFilter::Info
            } else if self.verbose == 1 {
                LevelFilter::Debug
            } else {
                LevelFilter::Trace
            }),
    {
        self.verbosity_level().log_level_filter()
    }
}

} // verus!
