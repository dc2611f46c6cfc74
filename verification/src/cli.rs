//! Command-line settings: the log level and the port.
use vstd::prelude::*;

verus! {

/// The log levels a user can ask for.
#[derive(Clone, Copy, Debug, PartialEq, Eq)]
pub enum LogLevel {
    Trace,
    Debug,
    Info,
    Warn,
    Error,
}

/// The levels of the `tracing` crate (`tracing::Level`), one for one.
#[derive(Clone, Copy, Debug, PartialEq, Eq)]
pub enum TraceLevel {
    Trace,
    Debug,
    Info,
    Warn,
    Error,
}

/// The tracing level of each log level: the one with the same name.
pub open spec fn trace_level_of(level: LogLevel) -> TraceLevel {
    match level {
        LogLevel::Trace => TraceLevel::Trace,
        LogLevel::Debug => TraceLevel::Debug,
        LogLevel::Info => TraceLevel::Info,
        LogLevel::Warn => TraceLevel::Warn,
        LogLevel::Error => TraceLevel::Error,
    }
}

/// Each log level becomes the tracing level of the same name.
pub proof fn lemma_trace_level_names()
    ensures
        trace_level_of(LogLevel::Trace) == TraceLevel::Trace,
        trace_level_of(LogLevel::Debug) == TraceLevel::Debug,
        trace_level_of(LogLevel::Info) == TraceLevel::Info,
        trace_level_of(LogLevel::Warn) == TraceLevel::Warn,
        trace_level_of(LogLevel::Error) == TraceLevel::Error,
{
}

/// How verbose a tracing level is, in `tracing::Level`'s order: more verbose is
/// greater (`Trace` highest, `Error` lowest).
pub open spec fn verbosity(level: TraceLevel) -> nat {
    match level {
        TraceLevel::Trace => 4,
        TraceLevel::Debug => 3,
        TraceLevel::Info => 2,
        TraceLevel::Warn => 1,
        TraceLevel::Error => 0,
    }
}

/// How verbose a log level is: the levels are declared from most to least
/// verbose.
pub open spec fn log_verbosity(level: LogLevel) -> nat {
    match level {
        LogLevel::Trace => 4,
        LogLevel::Debug => 3,
        LogLevel::Info => 2,
        LogLevel::Warn => 1,
        LogLevel::Error => 0,
    }
}

/// `to_trace` keeps the order of verbosity and maps distinct log levels to
/// distinct tracing levels.
pub proof fn lemma_to_trace_keeps_verbosity(a: LogLevel, b: LogLevel)
    ensures
        log_verbosity(a) < log_verbosity(b) <==> verbosity(trace_level_of(a)) < verbosity(
            trace_level_of(b),
        ),
        trace_level_of(a) == trace_level_of(b) ==> a == b,
{
}

impl LogLevel {
    /// The tracing level with the same name.
    pub fn to_trace(&self) -> (level: TraceLevel)
        ensures
            level == trace_level_of(*self),
    {
        match self {
            LogLevel::Trace => TraceLevel::Trace,
            LogLevel::Debug => TraceLevel::Debug,
            LogLevel::Info => TraceLevel::Info,
            LogLevel::Warn => TraceLevel::Warn,
            LogLevel::Error => TraceLevel::Error,
        }
    }
}

/// The program's arguments.
#[derive(Clone, Copy, Debug)]
pub struct Args {
    /// The log level asked for, if any.
    pub log_level: Option<LogLevel>,
    /// The port for POST input and websocket output.
    pub port: Option<u32>,
}

impl Args {
    /// The tracing level to run with: the one asked for, `Info` when none was.
    pub fn trace_level(&self) -> (level: TraceLevel)
        ensures
            level == match self.log_level {
                Some(l) => trace_level_of(l),
                None => TraceLevel::Info,
            },
    {
        let level = match self.log_level {
            Some(l) => l,
            None => LogLevel::Info,
        };
        level.to_trace()
    }
}

} // verus!
