//! What the metrics and the logging are told: the configuration of the log,
//! and the labels and counters that stand for an outcome.

use crate::text::text_eq;
use vstd::prelude::*;
use vstd::string::*;

verus! {

/// The form in which log lines are written.
#[derive(Debug, Clone, Copy, PartialEq, Eq, Structural)]
pub enum LogFormat {
    Json,
    Text,
}

/// How the log is set up.
#[derive(Debug)]
pub struct LogConfig {
    pub level: String,
    pub format: LogFormat,
}

impl Default for LogConfig {
    /// Level `info`, written as JSON.
    fn default() -> (config: LogConfig)
        ensures
            config.level@ == "info"@,
            config.format == LogFormat::Json,
    {
        LogConfig { level: "info".to_string(), format: LogFormat::Json }
    }
}

/// The format that the settings ask for: the one that is named; where none
/// or another is named, JSON in production and text elsewhere.
pub open spec fn chosen_format(format: Option<Seq<char>>, environment: Option<Seq<char>>) -> LogFormat {
    if format == Some("text"@) {
        LogFormat::Text
    } else if format == Some("json"@) {
        LogFormat::Json
    } else if environment == Some("production"@) {
        LogFormat::Json
    } else {
        LogFormat::Text
    }
}

/// Whether the optional text is there and is `wanted`.
fn is_text(value: &Option<String>, wanted: &str) -> (b: bool)
    ensures
        b == (crate::record::text_of(*value) == Some(wanted@)),
{
    match value {
        Some(v) => text_eq(v.as_str(), wanted),
        None => false,
    }
}

impl LogConfig {
    /// The configuration that the settings of the environment ask for: the
    /// level that is set, `info` where none is; the format of
    /// `chosen_format`.
    pub fn from_env(level: Option<String>, format: Option<String>, environment: Option<String>) -> (config:
        LogConfig)
        ensures
            config.level@ == (match crate::record::text_of(level) {
                Some(l) => l,
                None => "info"@,
            }),
            config.format == chosen_format(
                crate::record::text_of(format),
                crate::record::text_of(environment),
            ),
    {
        let chosen = if is_text(&format, "text") {
            LogFormat::Text
        } else if is_text(&format, "json") {
            LogFormat::Json
        } else if is_text(&environment, "production") {
            LogFormat::Json
        } else {
            LogFormat::Text
        };
        let level = match level {
            Some(l) => l,
            None => "info".to_string(),
        };
        LogConfig { level, format: chosen }
    }
}

/// The counter of its own that an operation has.
#[derive(Debug, Clone, Copy, PartialEq, Eq, Structural)]
pub enum OperationCounter {
    Created,
    Updated,
    Deleted,
}

/// The counter that goes up when an operation succeeds, beside the counter
/// of all operations: one each for create, update and delete.
pub open spec fn operation_counter_spec(operation: Seq<char>) -> Option<OperationCounter> {
    if operation == "create"@ {
        Some(OperationCounter::Created)
    } else if operation == "update"@ {
        Some(OperationCounter::Updated)
    } else if operation == "delete"@ {
        Some(OperationCounter::Deleted)
    } else {
        None
    }
}

/// The counter that goes up when an operation succeeds.
pub fn operation_counter(operation: &str) -> (counter: Option<OperationCounter>)
    ensures
        counter == operation_counter_spec(operation@),
{
    if text_eq(operation, "create") {
        Some(OperationCounter::Created)
    } else if text_eq(operation, "update") {
        Some(OperationCounter::Updated)
    } else if text_eq(operation, "delete") {
        Some(OperationCounter::Deleted)
    } else {
        None
    }
}

/// The label under which a response of the control plane is counted as an
/// error: none below status 400.
pub open spec fn api_error_type_spec(status: u16) -> Option<Seq<char>> {
    if status < 400 {
        None
    } else if status == 400 {
        Some("bad_request"@)
    } else if status == 401 {
        Some("unauthorized"@)
    } else if status == 403 {
        Some("forbidden"@)
    } else if status == 404 {
        Some("not_found"@)
    } else if status == 409 {
        Some("conflict"@)
    } else if status == 500 {
        Some("internal_server_error"@)
    } else {
        Some("other_error"@)
    }
}

/// The label under which a response of the control plane is counted as an
/// error.
pub fn api_error_type(status: u16) -> (label: Option<&'static str>)
    ensures
        match label {
            Some(l) => api_error_type_spec(status) == Some(l@),
            None => api_error_type_spec(status) is None,
        },
{
    if status < 400 {
        None
    } else if status == 400 {
        Some("bad_request")
    } else if status == 401 {
        Some("unauthorized")
    } else if status == 403 {
        Some("forbidden")
    } else if status == 404 {
        Some("not_found")
    } else if status == 409 {
        Some("conflict")
    } else if status == 500 {
        Some("internal_server_error")
    } else {
        Some("other_error")
    }
}

} // verus!
