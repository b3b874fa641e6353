//! What the user asks for on the command line.

use vstd::prelude::*;
use crate::selector::Selector;

verus! {

/// The arguments of a run.
pub struct Args {
    /// Which profiles to update.
    pub profiles: glob::Pattern,
    /// Whether to ask for the secret anew rather than use the cached one.
    pub force_auth: bool,
    /// How often the user asked for more detail in the log.
    pub verbosity: usize,
}

/// The log level of a verbosity: warnings by default, then one level more
/// detail per step, up to traces.
pub open spec fn log_level_of(verbosity: usize) -> Seq<char> {
    if verbosity == 0 {
        "warn"@
    } else if verbosity == 1 {
        "info"@
    } else if verbosity == 2 {
        "debug"@
    } else {
        "trace"@
    }
}

impl Args {
    /// The log level that the verbosity asks for.
    pub fn log_level(&self) -> (level: &'static str)
        ensures
            level@ == log_level_of(self.verbosity),
    {
        match self.verbosity {
            0 => "warn",
            1 => "info",
            2 => "debug",
            _ => "trace",
        }
    }

    /// The selector of the profiles to update.
    pub fn selector(self) -> (s: Selector)
        ensures
            s.pattern() == self.profiles,
    {
        Selector::from_pattern(self.profiles)
    }
}

} // verus!
