//! Errors of the library.

use vstd::prelude::*;

use crate::host::{display_host_error, host_error_text};
use crate::text::{concat, concat3};

verus! {

/// What can go wrong in a module.
#[derive(Debug)]
pub enum AgentError {
    /// A value is not of the kind that was expected.
    InvalidValue(String),
    /// A configuration value is wrong.
    InvalidConfig(String),
    /// A configuration key does not exist.
    UnknownConfig(String),
    /// The module has no configuration.
    NoConfig,
    /// Work outside the library failed.
    IoError(String),
    /// An error of the host framework, passed on.
    Host(modular_agent_core::Error),
}

/// An error, as contracts speak of it.
pub enum ErrorData {
    InvalidValue(Seq<char>),
    InvalidConfig(Seq<char>),
    UnknownConfig(Seq<char>),
    NoConfig,
    IoError(Seq<char>),
    Host(modular_agent_core::Error),
}

impl View for AgentError {
    type V = ErrorData;

    open spec fn view(&self) -> ErrorData {
        match *self {
            AgentError::InvalidValue(s) => ErrorData::InvalidValue(s@),
            AgentError::InvalidConfig(s) => ErrorData::InvalidConfig(s@),
            AgentError::UnknownConfig(s) => ErrorData::UnknownConfig(s@),
            AgentError::NoConfig => ErrorData::NoConfig,
            AgentError::IoError(s) => ErrorData::IoError(s@),
            AgentError::Host(e) => ErrorData::Host(e),
        }
    }
}

/// The text that an error is shown with.
pub open spec fn error_message(e: ErrorData) -> Seq<char> {
    match e {
        ErrorData::InvalidValue(s) => "Invalid "@ + s + " value"@,
        ErrorData::InvalidConfig(s) => "Configuration error: "@ + s,
        ErrorData::UnknownConfig(s) => "Unknown configuration: "@ + s,
        ErrorData::NoConfig => "No configuration available"@,
        ErrorData::IoError(s) => "IO error: "@ + s,
        ErrorData::Host(h) => host_error_text(h),
    }
}

impl AgentError {
    /// The text that the error is shown with.
    pub fn message(&self) -> (r: String)
        ensures
            r@ == error_message(self@),
    {
        match self {
            AgentError::InvalidValue(s) => concat3("Invalid ", s.as_str(), " value"),
            AgentError::InvalidConfig(s) => concat("Configuration error: ", s.as_str()),
            AgentError::UnknownConfig(s) => concat("Unknown configuration: ", s.as_str()),
            AgentError::NoConfig => "No configuration available".to_string(),
            AgentError::IoError(s) => concat("IO error: ", s.as_str()),
            AgentError::Host(e) => display_host_error(e),
        }
    }
}

/// An error is shown with what was wrong; an error of the host as the host
/// shows it.
pub proof fn messages_say_what_was_wrong(text: Seq<char>, e: modular_agent_core::Error)
    ensures
        error_message(ErrorData::InvalidValue(text)) == "Invalid "@ + text + " value"@,
        error_message(ErrorData::InvalidConfig(text)) == "Configuration error: "@ + text,
        error_message(ErrorData::UnknownConfig(text)) == "Unknown configuration: "@ + text,
        error_message(ErrorData::NoConfig) == "No configuration available"@,
        error_message(ErrorData::IoError(text)) == "IO error: "@ + text,
        error_message(ErrorData::Host(e)) == host_error_text(e),
{
}

/// An error stands for its kind and its text.
pub proof fn errors_stand_for_what_they_say(e: AgentError)
    ensures
        e matches AgentError::InvalidValue(s) ==> e@ == ErrorData::InvalidValue(s@),
        e matches AgentError::InvalidConfig(s) ==> e@ == ErrorData::InvalidConfig(s@),
        e matches AgentError::UnknownConfig(s) ==> e@ == ErrorData::UnknownConfig(s@),
        e is NoConfig ==> e@ == ErrorData::NoConfig,
        e matches AgentError::IoError(s) ==> e@ == ErrorData::IoError(s@),
        e matches AgentError::Host(h) ==> e@ == ErrorData::Host(h),
{
}

} // verus!
