//! The failures that the library reports.

use vstd::prelude::*;
use vstd::string::StringExecFns;
use crate::text::{decimal, decimal_text};

verus! {

/// A failure of one operation. None of them ends the service: the operation
/// that met it fails, and the caller decides what to do next.
#[derive(Debug, PartialEq, Eq)]
pub enum Error {
    /// A text could not be handed over: a source with a NUL character in it, or
    /// an engine message that is not UTF-8.
    EncodingError,
    /// The engine could not give the device.
    DeviceLookupFailed,
    /// The engine refused to attach to the process.
    AttachFailed { code: i32, message: String },
    /// The engine could not start the program.
    SpawnFailed { code: i32, message: String },
    /// The engine could not resume the process.
    ResumeFailed { code: i32, message: String },
    /// The engine could not kill the process.
    KillFailed { code: i32, message: String },
    /// The engine could not detach the session.
    DetachFailed { code: i32, message: String },
    /// The engine could not answer the query for the system parameters.
    QueryFailed { code: i32, message: String },
    /// The engine could not list the processes.
    ProcessesEnumerationFailed,
    /// The engine could not create the script.
    ScriptCreationFailed,
    /// The engine could not load the script.
    LoadFailed,
    /// The engine could not unload the script.
    UnloadFailed,
    /// The session is detached and cannot be used any more.
    SessionDetached,
    /// The script is not in the state that the operation needs: it was loaded
    /// before, or it is not loaded yet.
    ScriptStateInvalid,
    /// The script has a message handler already.
    HandlerAlreadyRegistered,
    /// A value has a type descriptor that is none of the five supported ones.
    UnsupportedVariant(String),
    /// A value does not hold what its type descriptor announces.
    MalformedVariant(String),
    /// A value is nested deeper than the decoder follows.
    NestingTooDeep,
    /// No target is configured and none was found on the device.
    ConfigurationUnavailable,
    /// An answer of the engine was handed in that answers no call that was
    /// asked for.
    UnexpectedReply,
}

/// What an [`Error`] is, as a mathematical value.
pub enum Failure {
    EncodingError,
    DeviceLookupFailed,
    AttachFailed { code: i32, message: Seq<char> },
    SpawnFailed { code: i32, message: Seq<char> },
    ResumeFailed { code: i32, message: Seq<char> },
    KillFailed { code: i32, message: Seq<char> },
    DetachFailed { code: i32, message: Seq<char> },
    QueryFailed { code: i32, message: Seq<char> },
    ProcessesEnumerationFailed,
    ScriptCreationFailed,
    LoadFailed,
    UnloadFailed,
    SessionDetached,
    ScriptStateInvalid,
    HandlerAlreadyRegistered,
    UnsupportedVariant(Seq<char>),
    MalformedVariant(Seq<char>),
    NestingTooDeep,
    ConfigurationUnavailable,
    UnexpectedReply,
}

impl View for Error {
    type V = Failure;

    open spec fn view(&self) -> Failure {
        match *self {
            Error::EncodingError => Failure::EncodingError,
            Error::DeviceLookupFailed => Failure::DeviceLookupFailed,
            Error::AttachFailed { code, message } => Failure::AttachFailed { code, message: message@ },
            Error::SpawnFailed { code, message } => Failure::SpawnFailed { code, message: message@ },
            Error::ResumeFailed { code, message } => Failure::ResumeFailed { code, message: message@ },
            Error::KillFailed { code, message } => Failure::KillFailed { code, message: message@ },
            Error::DetachFailed { code, message } => Failure::DetachFailed { code, message: message@ },
            Error::QueryFailed { code, message } => Failure::QueryFailed { code, message: message@ },
            Error::ProcessesEnumerationFailed => Failure::ProcessesEnumerationFailed,
            Error::ScriptCreationFailed => Failure::ScriptCreationFailed,
            Error::LoadFailed => Failure::LoadFailed,
            Error::UnloadFailed => Failure::UnloadFailed,
            Error::SessionDetached => Failure::SessionDetached,
            Error::ScriptStateInvalid => Failure::ScriptStateInvalid,
            Error::HandlerAlreadyRegistered => Failure::HandlerAlreadyRegistered,
            Error::UnsupportedVariant(descriptor) => Failure::UnsupportedVariant(descriptor@),
            Error::MalformedVariant(descriptor) => Failure::MalformedVariant(descriptor@),
            Error::NestingTooDeep => Failure::NestingTooDeep,
            Error::ConfigurationUnavailable => Failure::ConfigurationUnavailable,
            Error::UnexpectedReply => Failure::UnexpectedReply,
        }
    }
}

/// Whether `result` is the failure `failure`.
pub open spec fn fails_with<T>(result: Result<T, Error>, failure: Failure) -> bool {
    match result {
        Ok(_) => false,
        Err(error) => error@ == failure,
    }
}

/// The words for a failure that the engine reported: what failed, the engine's
/// code in round brackets, and the engine's message.
pub open spec fn reported(what: Seq<char>, code: i32, message: Seq<char>) -> Seq<char> {
    what + " ("@ + decimal(code as int) + ") "@ + message
}

/// The words for a failure that was met on a value with the descriptor
/// `descriptor`.
pub open spec fn on_descriptor(what: Seq<char>, descriptor: Seq<char>) -> Seq<char> {
    what + ": "@ + descriptor
}

/// The words that describe a failure.
pub open spec fn description(failure: Failure) -> Seq<char> {
    match failure {
        Failure::EncodingError => "Text conversion failed"@,
        Failure::DeviceLookupFailed => "Failed to find the device"@,
        Failure::AttachFailed { code, message } => reported("Failed to attach"@, code, message),
        Failure::SpawnFailed { code, message } => reported("Failed to spawn program"@, code, message),
        Failure::ResumeFailed { code, message } => reported("Failed to resume"@, code, message),
        Failure::KillFailed { code, message } => reported("Failed to kill PID"@, code, message),
        Failure::DetachFailed { code, message } => reported(
            "Failed to detach the current session"@,
            code,
            message,
        ),
        Failure::QueryFailed { code, message } => reported(
            "Failed to query device parameters"@,
            code,
            message,
        ),
        Failure::ProcessesEnumerationFailed => "Failed to enumerate processes"@,
        Failure::ScriptCreationFailed => "Failed to create the script"@,
        Failure::LoadFailed => "Failed to load the script"@,
        Failure::UnloadFailed => "Failed to unload the script"@,
        Failure::SessionDetached => "The session is detached"@,
        Failure::ScriptStateInvalid => "The script is not in the state for this"@,
        Failure::HandlerAlreadyRegistered => "The script has a message handler already"@,
        Failure::UnsupportedVariant(descriptor) => on_descriptor("Unsupported variant"@, descriptor),
        Failure::MalformedVariant(descriptor) => on_descriptor("Malformed variant"@, descriptor),
        Failure::NestingTooDeep => "The value is nested too deep"@,
        Failure::ConfigurationUnavailable => "No target is configured and none was found"@,
        Failure::UnexpectedReply => "The answer belongs to no call that was asked for"@,
    }
}

/// Puts together the words for a failure that the engine reported.
fn report(what: &str, code: i32, message: &str) -> (text: String)
    ensures
        text@ == reported(what@, code, message@),
{
    let mut text = what.to_owned();
    text.append(" (");
    let number = decimal_text(code as i64);
    text.append(number.as_str());
    text.append(") ");
    text.append(message);
    text
}

/// Puts together the words for a failure that was met on a value.
fn report_descriptor(what: &str, descriptor: &str) -> (text: String)
    ensures
        text@ == on_descriptor(what@, descriptor@),
{
    let mut text = what.to_owned();
    text.append(": ");
    text.append(descriptor);
    text
}

impl Error {
    /// The words that describe the failure, as they are sent to the one who
    /// asked.
    pub fn describe(&self) -> (text: String)
        ensures
            text@ == description(self@),
    {
        match self {
            Error::EncodingError => "Text conversion failed".to_owned(),
            Error::DeviceLookupFailed => "Failed to find the device".to_owned(),
            Error::AttachFailed { code, message } => report("Failed to attach", *code, message.as_str()),
            Error::SpawnFailed { code, message } => report(
                "Failed to spawn program",
                *code,
                message.as_str(),
            ),
            Error::ResumeFailed { code, message } => report("Failed to resume", *code, message.as_str()),
            Error::KillFailed { code, message } => report("Failed to kill PID", *code, message.as_str()),
            Error::DetachFailed { code, message } => report(
                "Failed to detach the current session",
                *code,
                message.as_str(),
            ),
            Error::QueryFailed { code, message } => report(
                "Failed to query device parameters",
                *code,
                message.as_str(),
            ),
            Error::ProcessesEnumerationFailed => "Failed to enumerate processes".to_owned(),
            Error::ScriptCreationFailed => "Failed to create the script".to_owned(),
            Error::LoadFailed => "Failed to load the script".to_owned(),
            Error::UnloadFailed => "Failed to unload the script".to_owned(),
            Error::SessionDetached => "The session is detached".to_owned(),
            Error::ScriptStateInvalid => "The script is not in the state for this".to_owned(),
            Error::HandlerAlreadyRegistered => "The script has a message handler already".to_owned(),
            Error::UnsupportedVariant(descriptor) => report_descriptor(
                "Unsupported variant",
                descriptor.as_str(),
            ),
            Error::MalformedVariant(descriptor) => report_descriptor(
                "Malformed variant",
                descriptor.as_str(),
            ),
            Error::NestingTooDeep => "The value is nested too deep".to_owned(),
            Error::ConfigurationUnavailable => "No target is configured and none was found".to_owned(),
            Error::UnexpectedReply => "The answer belongs to no call that was asked for".to_owned(),
        }
    }
}

} // verus!
