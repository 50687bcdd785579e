//! Logging configuration: severity levels, the user-facing configuration and
//! the settings a boundary logger is built from. Building the actual log
//! pipeline (terminal or JSON drains) is the boundary's job; this module
//! decides what it should be built with and which records pass the filter.

use vstd::prelude::*;

verus! {

/// The severity levels of the logger, most severe first.
#[derive(Debug, Clone, Copy, PartialEq, Eq, Structural)]
pub enum Level {
    /// The most severe level: unrecoverable failures.
    Critical,
    /// Failures of an operation.
    Error,
    /// Unexpected but tolerable conditions.
    Warning,
    /// Routine operational records.
    Info,
    /// Diagnostic records.
    Debug,
    /// The least severe level: very verbose diagnostics.
    Trace,
}

impl Level {
    /// The numeric severity of this level: lower is more severe.
    pub open spec fn severity_spec(&self) -> int {
        match self {
            Level::Critical => 0,
            Level::Error => 1,
            Level::Warning => 2,
            Level::Info => 3,
            Level::Debug => 4,
            Level::Trace => 5,
        }
    }

    /// The numeric severity of this level: lower is more severe.
    pub fn severity(&self) -> (r: u8)
        ensures
            r as int == self.severity_spec(),
    {
        match self {
            Level::Critical => 0,
            Level::Error => 1,
            Level::Warning => 2,
            Level::Info => 3,
            Level::Debug => 4,
            Level::Trace => 5,
        }
    }

    /// The filtering decision: true when a record at this level is at least
    /// as severe as the configured threshold, so the handler logs it.
    pub fn is_at_least(&self, threshold: &Level) -> (r: bool)
        ensures
            r == (self.severity_spec() <= threshold.severity_spec()),
    {
        self.severity() <= threshold.severity()
    }
}

/// General log related configuration.
#[derive(Debug, Clone, Copy, PartialEq, Eq, Structural)]
pub struct Config {
    /// Emit JSON records instead of human-readable text.
    pub json: bool,
    /// The least severe level that is still logged.
    pub level: Level,
}

/// What a root logger is built from: the boundary hands these settings to the
/// logging backend, together with the binary name and version stamped onto
/// every record.
#[derive(Debug)]
pub struct Settings {
    /// The name of the running binary.
    pub binary: String,
    /// The version of the running binary.
    pub version: String,
    /// Emit JSON records instead of human-readable text.
    pub json: bool,
    /// The least severe level that is still logged.
    pub level: Level,
}

/// The settings of the default logger to use for init processing before
/// configuration can be parsed: human-readable output that only logs critical
/// records. This default logger should only be used temporarily and then
/// thrown away in favor of a user configured logger.
pub fn default(bin: &'static str, version: &'static str) -> (r: Settings)
    ensures
        r.binary@ == bin@,
        r.version@ == version@,
        r.json == false,
        r.level == Level::Critical,
{
    Settings {
        binary: String::from_str(bin),
        version: String::from_str(version),
        json: false,
        level: Level::Critical,
    }
}

/// The settings of a root logger based on the supplied configuration, with
/// the application name and version as base key/value pairs.
pub fn new(cfg: &Config, bin: &'static str, version: &'static str) -> (r: Settings)
    ensures
        r.binary@ == bin@,
        r.version@ == version@,
        r.json == cfg.json,
        r.level == cfg.level,
{
    Settings {
        binary: String::from_str(bin),
        version: String::from_str(version),
        json: cfg.json,
        level: cfg.level,
    }
}

} // verus!
