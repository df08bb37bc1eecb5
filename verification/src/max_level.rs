//! The max level of the process: the filter that every message must pass to be logged.

use crate::logging::LogFilter;
use vstd::prelude::*;

verus! {

/// The max level of the process. It stands for the filter that was last set through it; a program
/// has one, and sets the max level through nothing else.
pub struct MaxLevel {
    set: Ghost<Option<LogFilter>>,
}

impl View for MaxLevel {
    type V = Option<LogFilter>;

    closed spec fn view(&self) -> Option<LogFilter> {
        self.set@
    }
}

impl MaxLevel {
    /// The max level as the process begins with it, before any is set.
    pub fn new() -> (max_level: MaxLevel)
        ensures
            max_level@ is None,
    {
        MaxLevel { set: Ghost(None) }
    }
}

/// `log::set_max_level`: stores, for the whole process, the filter that messages must pass. The
/// filter is the one that was last set from then on.
#[verifier::external_body]
pub(crate) fn set_max_level(max_level: &mut MaxLevel, filter: LogFilter)
    ensures
        final(max_level)@ == Some(filter),
{
    log::set_max_level(match filter {
        LogFilter::Off => log::LevelFilter::Off,
        LogFilter::Error => log::LevelFilter::Error,
        LogFilter::Warn => log::LevelFilter::Warn,
        LogFilter::Info => log::LevelFilter::Info,
        LogFilter::Debug => log::LevelFilter::Debug,
        LogFilter::Trace => log::LevelFilter::Trace,
    })
}

} // verus!
