//! A session with one process, and the scripts that are created in it.

use vstd::prelude::*;
use crate::engine::{fault_failure, EngineCall, Fault, Operation, Reply};
use crate::error::{fails_with, Error, Failure};
use crate::script::{Script, ScriptState, ScriptStatus};
use crate::text::{is_nul_free, nul_free};

verus! {

/// Represents a session with a process.
///
/// A session begins attached. It becomes detached when it is detached, or when
/// the caller learns from the engine that the process is gone, and it never
/// becomes attached again.
#[derive(Debug)]
pub struct Session {
    handle: u64,
    pid: u32,
    detached: bool,
}

/// What a [`Session`] holds, as plain values.
pub struct SessionState {
    pub handle: u64,
    pub pid: u32,
    pub detached: bool,
}

impl View for Session {
    type V = SessionState;

    closed spec fn view(&self) -> SessionState {
        SessionState { handle: self.handle, pid: self.pid, detached: self.detached }
    }
}

/// What asking for a script with the source `source` in a session gives: the
/// failure for which no script is created, if there is one.
pub open spec fn script_refusal(session: SessionState, source: Seq<char>) -> Option<Failure> {
    if session.detached {
        Some(Failure::SessionDetached)
    } else if !nul_free(source) {
        Some(Failure::EncodingError)
    } else {
        None
    }
}

impl Session {
    /// The attached session with the process `pid` that the engine knows under
    /// `handle`.
    pub(crate) fn from_raw(handle: u64, pid: u32) -> (session: Session)
        ensures
            session@ == (SessionState { handle, pid, detached: false }),
    {
        Session { handle, pid, detached: false }
    }

    /// The engine's handle for the session.
    pub fn handle(&self) -> (handle: u64)
        ensures
            handle == self@.handle,
    {
        self.handle
    }

    /// The pid of the process that the session is with.
    pub fn pid(&self) -> (pid: u32)
        ensures
            pid == self@.pid,
    {
        self.pid
    }

    /// Returns if the session is detached or not.
    pub fn is_detached(&self) -> (detached: bool)
        ensures
            detached == self@.detached,
    {
        self.detached
    }

    /// Takes note of what the engine says of the session: with the flag 1 the
    /// session is detached from now on. Any other flag changes nothing.
    pub fn observe(&mut self, flag: i32)
        ensures
            final(self)@ == (SessionState {
                detached: old(self)@.detached || flag == 1,
                ..old(self)@
            }),
    {
        if flag == 1 {
            self.detached = true;
        }
    }

    /// Decides whether a script with the source `source` may be created in
    /// this session, and says which call to make if so.
    ///
    /// In a detached session no script is created: the answer is
    /// `SessionDetached`, whatever the source. A source with a NUL character in
    /// it gives `EncodingError`.
    pub fn script_request(&self, source: &str) -> (request: Result<EngineCall, Error>)
        ensures
            match script_refusal(self@, source@) {
                Some(failure) => fails_with(request, failure),
                None => request == Ok::<_, Error>(
                    EngineCall::CreateScript { session: self@.handle },
                ),
            },
    {
        if self.detached {
            return Err(Error::SessionDetached);
        }
        if !is_nul_free(source) {
            return Err(Error::EncodingError);
        }
        Ok(EngineCall::CreateScript { session: self.handle })
    }

    /// Creates the [`Script`] that the engine's reply to the call that creates
    /// it stands for. The reply's value is the handle of the script. The
    /// script is created, not loaded, and has no handler.
    ///
    /// In a detached session this fails with `SessionDetached`, whatever the
    /// source and the reply are. A source with a NUL character in it gives
    /// `EncodingError`, and a fault of the engine `ScriptCreationFailed`.
    pub fn create_script(&self, source: &str, reply: Reply<u64>) -> (result: Result<Script, Error>)
        ensures
            match script_refusal(self@, source@) {
                Some(failure) => fails_with(result, failure),
                None => match reply.error {
                    Some(_) => fails_with(result, Failure::ScriptCreationFailed),
                    None => result matches Ok(script) && script@ == (ScriptState {
                        handle: reply.value,
                        session: self@.handle,
                        status: ScriptStatus::Created,
                        exports: Seq::<Seq<char>>::empty(),
                        handler: false,
                    }),
                },
            },
    {
        if self.detached {
            return Err(Error::SessionDetached);
        }
        if !is_nul_free(source) {
            return Err(Error::EncodingError);
        }
        match reply.error {
            Some(_) => Err(Error::ScriptCreationFailed),
            None => Ok(Script::from_raw(reply.value, self.handle)),
        }
    }

    /// Detaches the current session, given the error slot that the engine left
    /// after the call that detaches it.
    ///
    /// The session is detached afterwards in every case. On a session that was
    /// detached already nothing happens and the answer is success, whatever the
    /// slot holds: for such a session the engine is not asked at all, and the
    /// caller hands in an empty slot. Otherwise a fault of the engine gives
    /// `DetachFailed` with its code and message.
    pub fn detach(&mut self, error: Option<Fault>) -> (result: Result<(), Error>)
        ensures
            final(self)@ == (SessionState { detached: true, ..old(self)@ }),
            old(self)@.detached ==> result is Ok,
            !old(self)@.detached ==> match error {
                Some(fault) => fails_with(result, fault_failure(
                    Operation::Detach,
                    fault,
                )),
                None => result is Ok,
            },
    {
        if self.detached {
            return Ok(());
        }
        self.detached = true;
        match error {
            Some(fault) => Err(fault.into_error(Operation::Detach)),
            None => Ok(()),
        }
    }
}

} // verus!
