//! Log levels and log lines.

use crate::max_level::{set_max_level, MaxLevel};
use crate::text::{same_text, to_lowercase};
use vstd::prelude::*;
use vstd::string::*;

verus! {

/// How much a message matters.
#[derive(Clone, Copy, Debug, PartialEq, Eq, Structural)]
pub enum LogLevel {
    Error,
    Warn,
    Info,
    Debug,
    Trace,
}

/// The messages that are logged: those that matter at least so much.
#[derive(Clone, Copy, Debug, PartialEq, Eq, Structural)]
pub enum LogFilter {
    Off,
    Error,
    Warn,
    Info,
    Debug,
    Trace,
}

/// What became of the logger when it was set up.
#[derive(Debug)]
pub enum LoggerSetup {
    /// The log file could not be opened; the text says why.
    NotOpened(String),
    /// The logger was not taken; the text says why.
    NotRegistered(String),
    Registered,
}

/// The filter that a name in lower case stands for; any other name stands for warnings.
pub open spec fn named_filter(name: Seq<char>) -> LogFilter {
    if name == "error"@ {
        LogFilter::Error
    } else if name == "warn"@ {
        LogFilter::Warn
    } else if name == "info"@ {
        LogFilter::Info
    } else if name == "debug"@ {
        LogFilter::Debug
    } else {
        LogFilter::Warn
    }
}

/// The filter that a name of a level stands for, in whatever case it is written.
pub open spec fn filter_of(name: Seq<char>) -> LogFilter {
    named_filter(crate::text::lowercase(name))
}

/// How far down a level stands.
pub open spec fn level_rank(level: LogLevel) -> int {
    match level {
        LogLevel::Error => 1,
        LogLevel::Warn => 2,
        LogLevel::Info => 3,
        LogLevel::Debug => 4,
        LogLevel::Trace => 5,
    }
}

/// How far down a filter reaches.
pub open spec fn filter_rank(filter: LogFilter) -> int {
    match filter {
        LogFilter::Off => 0,
        LogFilter::Error => 1,
        LogFilter::Warn => 2,
        LogFilter::Info => 3,
        LogFilter::Debug => 4,
        LogFilter::Trace => 5,
    }
}

/// A level as a log line shows it.
pub open spec fn level_text(level: LogLevel) -> Seq<char> {
    match level {
        LogLevel::Error => "ERROR"@,
        LogLevel::Warn => "WARN"@,
        LogLevel::Info => "INFO"@,
        LogLevel::Debug => "DEBUG"@,
        LogLevel::Trace => "TRACE"@,
    }
}

/// A line of the log.
pub open spec fn log_line(
    level: LogLevel,
    target: Seq<char>,
    thread: Seq<char>,
    message: Seq<char>,
) -> Seq<char> {
    "["@ + level_text(level) + "] "@ + target + " ["@ + thread + "] "@ + message + "\n"@
}

/// The filter that a name in lower case stands for.
pub fn filter_for_name(name: &str) -> (filter: LogFilter)
    ensures
        filter == named_filter(name@),
{
    if same_text(name, "error") {
        LogFilter::Error
    } else if same_text(name, "warn") {
        LogFilter::Warn
    } else if same_text(name, "info") {
        LogFilter::Info
    } else if same_text(name, "debug") {
        LogFilter::Debug
    } else {
        LogFilter::Warn
    }
}

/// The filter that a name of a level stands for, in whatever case it is written.
pub fn parse_log_filter(log_level: &str) -> (filter: LogFilter)
    ensures
        filter == filter_of(log_level@),
        crate::text::ascii(log_level@) ==> filter == named_filter(
            log_level@.map_values(|c: char| crate::text::ascii_lower(c)),
        ),
{
    let lower = to_lowercase(log_level);
    filter_for_name(lower.as_str())
}

/// Whether a message of this level passes the filter.
pub fn level_enabled(level: LogLevel, filter: LogFilter) -> (r: bool)
    ensures
        r == (level_rank(level) <= filter_rank(filter)),
{
    match (level, filter) {
        (_, LogFilter::Off) => false,
        (LogLevel::Error, _) => true,
        (_, LogFilter::Error) => false,
        (LogLevel::Warn, _) => true,
        (_, LogFilter::Warn) => false,
        (LogLevel::Info, _) => true,
        (_, LogFilter::Info) => false,
        (LogLevel::Debug, _) => true,
        (_, LogFilter::Debug) => false,
        (LogLevel::Trace, _) => true,
    }
}

/// A line of the log; a thread without a name goes by `main`.
pub fn format_log_line(
    level: LogLevel,
    target: &str,
    thread: Option<&str>,
    message: &str,
) -> (line: String)
    ensures
        line@ == log_line(
            level,
            target@,
            match thread {
                Some(name) => name@,
                None => "main"@,
            },
            message@,
        ),
{
    let level_name = match level {
        LogLevel::Error => "ERROR",
        LogLevel::Warn => "WARN",
        LogLevel::Info => "INFO",
        LogLevel::Debug => "DEBUG",
        LogLevel::Trace => "TRACE",
    };
    let thread_name = match thread {
        Some(name) => name,
        None => "main",
    };
    "[".to_owned().concat(level_name).concat("] ").concat(target).concat(" [").concat(
        thread_name,
    ).concat("] ").concat(message).concat("\n")
}

/// Makes the messages that a name of a level stands for the ones that are logged.
pub fn apply_log_level(log_level: &str, max_level: &mut MaxLevel)
    ensures
        final(max_level)@ == Some(filter_of(log_level@)),
        crate::text::ascii(log_level@) ==> final(max_level)@ == Some(
            named_filter(log_level@.map_values(|c: char| crate::text::ascii_lower(c))),
        ),
{
    let filter = parse_log_filter(log_level);
    set_max_level(max_level, filter);
}

/// Puts a logger to work that was set up so: the messages that the name of a level stands for are
/// logged from then on. Where the logger could not be set up, the max level stays as it is.
pub fn init_logger(log_level: &str, setup: LoggerSetup, max_level: &mut MaxLevel) -> (started:
    Result<(), String>)
    ensures
        crate::text::result_view(started) == match setup {
            LoggerSetup::NotOpened(error) => Err(error@),
            LoggerSetup::NotRegistered(error) => Err("Failed to set logger: "@ + error@),
            LoggerSetup::Registered => Ok(()),
        },
        started is Ok ==> final(max_level)@ == Some(filter_of(log_level@)),
        started is Ok && crate::text::ascii(log_level@) ==> final(max_level)@ == Some(
            named_filter(log_level@.map_values(|c: char| crate::text::ascii_lower(c))),
        ),
        started is Err ==> final(max_level)@ == old(max_level)@,
{
    match setup {
        LoggerSetup::NotOpened(error) => Err(error),
        LoggerSetup::NotRegistered(error) => Err(
            "Failed to set logger: ".to_owned().concat(error.as_str()),
        ),
        LoggerSetup::Registered => {
            apply_log_level(log_level, max_level);
            Ok(())
        },
    }
}

/// A name of a level that the configuration takes is written in lower case already, so its
/// filter is the one that it names.
pub proof fn configured_names_are_lower_case(name: Seq<char>)
    requires
        crate::config::log_level_name(name),
    ensures
        crate::text::ascii(name),
        name.map_values(|c: char| crate::text::ascii_lower(c)) == name,
{
    reveal_strlit("error");
    reveal_strlit("warn");
    reveal_strlit("info");
    reveal_strlit("debug");
    assert(name.map_values(|c: char| crate::text::ascii_lower(c)) =~= name);
}

/// Each name of a level stands for its own filter, and any other name for warnings.
pub proof fn names_stand_for_their_filters(name: Seq<char>)
    ensures
        named_filter("error"@) == LogFilter::Error,
        named_filter("warn"@) == LogFilter::Warn,
        named_filter("info"@) == LogFilter::Info,
        named_filter("debug"@) == LogFilter::Debug,
        name != "error"@ && name != "warn"@ && name != "info"@ && name != "debug"@ ==> named_filter(
            name,
        ) == LogFilter::Warn,
        filter_of(name) == named_filter(crate::text::lowercase(name)),
{
    reveal_strlit("error");
    reveal_strlit("warn");
    reveal_strlit("info");
    reveal_strlit("debug");
    assert("error"@.len() == 5 && "warn"@.len() == 4 && "info"@.len() == 4 && "debug"@.len() == 5);
    assert("error"@[0] == 'e' && "debug"@[0] == 'd' && "warn"@[0] == 'w' && "info"@[0] == 'i');
}

/// A message that passes a filter passes every filter that reaches further down. Of the levels, each
/// passes its own filter and not the one above it.
pub proof fn filters_reach_down(level: LogLevel, filter: LogFilter, further: LogFilter)
    ensures
        filter_rank(LogFilter::Off) < filter_rank(LogFilter::Error) < filter_rank(LogFilter::Warn)
            < filter_rank(LogFilter::Info) < filter_rank(LogFilter::Debug) < filter_rank(
            LogFilter::Trace,
        ),
        level_rank(LogLevel::Error) == filter_rank(LogFilter::Error),
        level_rank(LogLevel::Warn) == filter_rank(LogFilter::Warn),
        level_rank(LogLevel::Info) == filter_rank(LogFilter::Info),
        level_rank(LogLevel::Debug) == filter_rank(LogFilter::Debug),
        level_rank(LogLevel::Trace) == filter_rank(LogFilter::Trace),
        level_rank(level) <= filter_rank(filter) <= filter_rank(further) ==> level_rank(level)
            <= filter_rank(further),
{
}

/// A line of the log holds the level in capitals and in brackets, the target, the thread in
/// brackets and the message, and ends there.
pub proof fn log_lines_hold_everything(
    level: LogLevel,
    target: Seq<char>,
    thread: Seq<char>,
    message: Seq<char>,
)
    ensures
        log_line(level, target, thread, message) == (match level {
            LogLevel::Error => "["@ + "ERROR"@,
            LogLevel::Warn => "["@ + "WARN"@,
            LogLevel::Info => "["@ + "INFO"@,
            LogLevel::Debug => "["@ + "DEBUG"@,
            LogLevel::Trace => "["@ + "TRACE"@,
        }) + "] "@ + target + " ["@ + thread + "] "@ + message + "\n"@,
{
}

} // verus!
