use vstd::prelude::*;

verus! {

/// Every way a run can fail; each one ends the run.
#[derive(Debug, Clone, Copy, PartialEq, Eq, Structural)]
pub enum TzError {
    /// The configuration file is missing, unreadable or not text.
    ConfigReadError,
    /// The configuration is not a well-formed document or lacks the `timezones` table.
    ConfigParseError,
    /// A value under `timezones` is not a string.
    ConfigSchemaError,
    /// A zone identifier names no known time zone (or the instant lies beyond the
    /// dates the time-zone database can represent).
    UnknownTimeZoneError,
    /// The `timezones` table has no entries.
    EmptyConfigError,
    /// The selector program could not be started.
    SelectorLaunchError,
    /// Writing to or reading from the selector failed.
    SelectorIOError,
}

impl TzError {
    /// A short human-readable description of the failure.
    pub fn message(&self) -> (r: String)
        ensures
            r@.len() > 0,
    {
        let text = match self {
            TzError::ConfigReadError => "could not read the configuration file",
            TzError::ConfigParseError => "the configuration is malformed or has no [timezones] table",
            TzError::ConfigSchemaError => "a value under [timezones] is not a string",
            TzError::UnknownTimeZoneError => "a configured time zone identifier is unknown",
            TzError::EmptyConfigError => "the [timezones] table is empty",
            TzError::SelectorLaunchError => "the selector program could not be started",
            TzError::SelectorIOError => "communication with the selector program failed",
        };
        proof {
            reveal_strlit("could not read the configuration file");
            reveal_strlit("the configuration is malformed or has no [timezones] table");
            reveal_strlit("a value under [timezones] is not a string");
            reveal_strlit("a configured time zone identifier is unknown");
            reveal_strlit("the [timezones] table is empty");
            reveal_strlit("the selector program could not be started");
            reveal_strlit("communication with the selector program failed");
        }
        text.to_string()
    }
}

} // verus!
