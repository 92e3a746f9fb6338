//! What crosses the boundary to the instrumentation engine.
//!
//! The engine answers a call with a value and an error slot. An empty slot
//! means that the call succeeded and the value counts; a filled slot means that
//! it failed, and the value is not to be looked at. The caller copies both into
//! a [`Reply`], and the functions of this library turn the reply into a
//! `Result`, so that nothing above them tests an error slot.

use vstd::prelude::*;
use vstd::string::StringSliceAdditionalSpecFns;
use vstd::utf8::{decode_utf8, encode_utf8_decode_utf8, valid_utf8};
use crate::error::Error;

verus! {

/// The error record of the engine: its numeric code and its message, as the
/// bytes of a C string without the terminator.
#[derive(Debug, PartialEq, Eq)]
pub struct Fault {
    pub code: i32,
    pub message: Vec<u8>,
}

/// The answer of the engine to one call.
#[derive(Debug, PartialEq, Eq)]
pub struct Reply<T> {
    pub value: T,
    pub error: Option<Fault>,
}

/// The kinds of failure that carry the engine's code and message.
#[derive(Debug, Clone, Copy, PartialEq, Eq, Structural)]
pub enum Operation {
    Attach,
    Spawn,
    Resume,
    Kill,
    Detach,
    Query,
}

/// `core::str::from_utf8`: the bytes as a text, where they are valid UTF-8, and
/// nothing where they are not. The text borrows the bytes: they are its
/// encoding.
#[verifier::external_body]
fn from_utf8(bytes: &[u8]) -> (text: Option<&str>)
    ensures
        match text {
            Some(t) => valid_utf8(bytes@) && t.spec_bytes() == bytes@,
            None => !valid_utf8(bytes@),
        },
{
    core::str::from_utf8(bytes).ok()
}

/// The text that the bytes encode, or nothing where they are not UTF-8.
pub fn str_from_utf8(bytes: &[u8]) -> (text: Option<&str>)
    ensures
        match text {
            Some(t) => valid_utf8(bytes@) && t@ == decode_utf8(bytes@),
            None => !valid_utf8(bytes@),
        },
{
    let text = from_utf8(bytes);
    proof {
        if let Some(t) = text {
            encode_utf8_decode_utf8(t@);
        }
    }
    text
}

/// The text that `bytes` encode, or the empty text where they are not UTF-8.
pub open spec fn text_or_empty(bytes: Seq<u8>) -> Seq<char> {
    if valid_utf8(bytes) {
        decode_utf8(bytes)
    } else {
        Seq::empty()
    }
}

/// The failure of the operation `operation` that the engine reported with the
/// code `code` and the message `message`.
pub open spec fn failure_of(operation: Operation, code: i32, message: Seq<char>) -> crate::error::Failure {
    match operation {
        Operation::Attach => crate::error::Failure::AttachFailed { code, message },
        Operation::Spawn => crate::error::Failure::SpawnFailed { code, message },
        Operation::Resume => crate::error::Failure::ResumeFailed { code, message },
        Operation::Kill => crate::error::Failure::KillFailed { code, message },
        Operation::Detach => crate::error::Failure::DetachFailed { code, message },
        Operation::Query => crate::error::Failure::QueryFailed { code, message },
    }
}

/// What a fault of the engine during `operation` is reported as: the failure of
/// that operation with the engine's code and message, or `EncodingError` where
/// the message is not UTF-8.
pub open spec fn fault_failure(operation: Operation, fault: Fault) -> crate::error::Failure {
    if valid_utf8(fault.message@) {
        failure_of(operation, fault.code, decode_utf8(fault.message@))
    } else {
        crate::error::Failure::EncodingError
    }
}

impl Fault {
    /// Turns the engine's error record into the failure of `operation`.
    pub fn into_error(self, operation: Operation) -> (error: Error)
        ensures
            error@ == fault_failure(operation, self),
    {
        let message = match str_from_utf8(self.message.as_slice()) {
            Some(text) => text.to_owned(),
            None => {
                return Error::EncodingError;
            },
        };
        let code = self.code;
        match operation {
            Operation::Attach => Error::AttachFailed { code, message },
            Operation::Spawn => Error::SpawnFailed { code, message },
            Operation::Resume => Error::ResumeFailed { code, message },
            Operation::Kill => Error::KillFailed { code, message },
            Operation::Detach => Error::DetachFailed { code, message },
            Operation::Query => Error::QueryFailed { code, message },
        }
    }
}

impl<T> Reply<T> {
    /// The reply to a call that succeeded with `value`.
    pub fn success(value: T) -> (reply: Self)
        ensures
            reply.value == value,
            reply.error is None,
    {
        Reply { value, error: None }
    }

    /// The reply to a call that failed with the code `code` and the message
    /// `message`; `value` stands where the engine left nothing to read.
    pub fn failure(value: T, code: i32, message: Vec<u8>) -> (reply: Self)
        ensures
            reply.value == value,
            reply.error == Some(Fault { code, message }),
    {
        Reply { value, error: Some(Fault { code, message }) }
    }

    /// The value of a call that succeeded, or the engine's error record.
    pub fn into_result(self) -> (result: Result<T, Fault>)
        ensures
            result == match self.error {
                Some(fault) => Err::<T, Fault>(fault),
                None => Ok::<T, Fault>(self.value),
            },
    {
        match self.error {
            Some(fault) => Err(fault),
            None => Ok(self.value),
        }
    }
}

/// A call into the engine that the caller is to make next.
#[derive(Debug, Clone, Copy, PartialEq, Eq, Structural)]
pub enum EngineCall {
    /// List the processes of the device.
    EnumerateProcesses { device: u64 },
    /// Attach to the process `pid` on the device.
    Attach { device: u64, pid: u32 },
    /// Create a script in the session, with the source that was asked for.
    CreateScript { session: u64 },
    /// Load the script.
    Load { script: u64 },
}

} // verus!
