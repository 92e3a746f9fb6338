//! A script in a session, from its creation to its unloading.

use vstd::prelude::*;
use crate::engine::Reply;
use crate::error::{fails_with, Error, Failure};

verus! {

/// How far a script has come.
#[derive(Debug, Clone, Copy, PartialEq, Eq, Structural)]
pub enum ScriptStatus {
    Created,
    Loaded,
    Unloaded,
}

/// A script in a session.
///
/// A script is created by its session, loaded once, and may be unloaded after
/// that. It remembers the names that it exported when they were last listed,
/// and whether a handler for its messages is registered.
#[derive(Debug)]
pub struct Script {
    handle: u64,
    session: u64,
    status: ScriptStatus,
    exports: Vec<String>,
    handler: bool,
}

/// What a [`Script`] holds, as plain values.
pub struct ScriptState {
    pub handle: u64,
    pub session: u64,
    pub status: ScriptStatus,
    pub exports: Seq<Seq<char>>,
    pub handler: bool,
}

/// The texts of `names`, in order.
pub open spec fn texts_of(names: Seq<String>) -> Seq<Seq<char>> {
    Seq::new(names.len(), |i: int| names[i]@)
}

impl View for Script {
    type V = ScriptState;

    closed spec fn view(&self) -> ScriptState {
        ScriptState {
            handle: self.handle,
            session: self.session,
            status: self.status,
            exports: texts_of(self.exports@),
            handler: self.handler,
        }
    }
}

impl Script {
    /// The script that the engine knows under `handle`, created in the session
    /// `session` and not loaded yet.
    pub(crate) fn from_raw(handle: u64, session: u64) -> (script: Script)
        ensures
            script@ == (ScriptState {
                handle,
                session,
                status: ScriptStatus::Created,
                exports: Seq::<Seq<char>>::empty(),
                handler: false,
            }),
    {
        let script = Script {
            handle,
            session,
            status: ScriptStatus::Created,
            exports: Vec::new(),
            handler: false,
        };
        proof {
            assert(texts_of(script.exports@) =~= Seq::<Seq<char>>::empty());
        }
        script
    }

    /// The engine's handle for the script.
    pub fn handle(&self) -> (handle: u64)
        ensures
            handle == self@.handle,
    {
        self.handle
    }

    /// How far the script has come.
    pub fn status(&self) -> (status: ScriptStatus)
        ensures
            status == self@.status,
    {
        self.status
    }

    /// Whether the script was created and never loaded.
    pub fn is_created(&self) -> (created: bool)
        ensures
            created == (self@.status == ScriptStatus::Created),
    {
        match self.status {
            ScriptStatus::Created => true,
            _ => false,
        }
    }

    /// Whether a handler for the messages of the script is registered.
    pub fn has_handler(&self) -> (registered: bool)
        ensures
            registered == self@.handler,
    {
        self.handler
    }

    /// Whether the script is loaded.
    pub fn is_loaded(&self) -> (loaded: bool)
        ensures
            loaded == (self@.status == ScriptStatus::Loaded),
    {
        match self.status {
            ScriptStatus::Loaded => true,
            _ => false,
        }
    }

    /// The names that the script exported when they were last listed.
    pub fn exports(&self) -> (names: &Vec<String>)
        ensures
            texts_of(names@) == self@.exports,
    {
        &self.exports
    }

    /// Loads the script, given the engine's reply to the call that loads it.
    ///
    /// Only a script that was created and never loaded can be loaded: on any
    /// other one this fails with `ScriptStateInvalid`, so that no script is
    /// loaded twice. A fault of the engine gives `LoadFailed`. The script is
    /// loaded afterwards exactly when the answer is success, and unchanged
    /// otherwise.
    pub fn load(&mut self, reply: Reply<()>) -> (result: Result<(), Error>)
        ensures
            old(self)@.status != ScriptStatus::Created ==> final(self)@ == old(self)@ && (
            fails_with(result, Failure::ScriptStateInvalid)),
            old(self)@.status == ScriptStatus::Created ==> match reply.error {
                Some(_) => final(self)@ == old(self)@ && fails_with(result, Failure::LoadFailed),
                None => result is Ok && final(self)@ == (ScriptState {
                    status: ScriptStatus::Loaded,
                    ..old(self)@
                }),
            },
    {
        match self.status {
            ScriptStatus::Created => {},
            _ => {
                return Err(Error::ScriptStateInvalid);
            },
        }
        match reply.error {
            Some(_) => Err(Error::LoadFailed),
            None => {
                self.status = ScriptStatus::Loaded;
                Ok(())
            },
        }
    }

    /// Takes the names that the script exports now, as the engine listed
    /// them, remembers them and hands them back.
    ///
    /// Only a loaded script has exports: on any other one this fails with
    /// `ScriptStateInvalid` and nothing is remembered. An empty list is no
    /// failure: a script may export its names some time after it was loaded,
    /// and the caller asks again.
    pub fn list_exports(&mut self, listed: Vec<String>) -> (result: Result<Vec<String>, Error>)
        ensures
            old(self)@.status != ScriptStatus::Loaded ==> final(self)@ == old(self)@ && fails_with(
                result,
                Failure::ScriptStateInvalid,
            ),
            old(self)@.status == ScriptStatus::Loaded ==> (result matches Ok(names) && texts_of(
                names@,
            ) == texts_of(listed@)) && final(self)@ == (ScriptState {
                exports: texts_of(listed@),
                ..old(self)@
            }),
    {
        match self.status {
            ScriptStatus::Loaded => {},
            _ => {
                return Err(Error::ScriptStateInvalid);
            },
        }
        let names = copy_names(&listed);
        self.exports = listed;
        Ok(names)
    }

    /// Registers the handler for the messages of the script. A script has at
    /// most one handler: where one is registered already, this fails with
    /// `HandlerAlreadyRegistered` and changes nothing.
    pub fn handle_message(&mut self) -> (result: Result<(), Error>)
        ensures
            old(self)@.handler ==> final(self)@ == old(self)@ && fails_with(result, Failure::HandlerAlreadyRegistered),
            !old(self)@.handler ==> result is Ok && final(self)@ == (ScriptState {
                handler: true,
                ..old(self)@
            }),
    {
        if self.handler {
            return Err(Error::HandlerAlreadyRegistered);
        }
        self.handler = true;
        Ok(())
    }

    /// Unloads the script, given the engine's reply to the call that unloads
    /// it. Only a loaded script can be unloaded.
    pub fn unload(&mut self, reply: Reply<()>) -> (result: Result<(), Error>)
        ensures
            old(self)@.status != ScriptStatus::Loaded ==> final(self)@ == old(self)@ && (
            fails_with(result, Failure::ScriptStateInvalid)),
            old(self)@.status == ScriptStatus::Loaded ==> match reply.error {
                Some(_) => final(self)@ == old(self)@ && fails_with(result, Failure::UnloadFailed),
                None => result is Ok && final(self)@ == (ScriptState {
                    status: ScriptStatus::Unloaded,
                    ..old(self)@
                }),
            },
    {
        match self.status {
            ScriptStatus::Loaded => {},
            _ => {
                return Err(Error::ScriptStateInvalid);
            },
        }
        match reply.error {
            Some(_) => Err(Error::UnloadFailed),
            None => {
                self.status = ScriptStatus::Unloaded;
                Ok(())
            },
        }
    }
}

/// A copy of `names`, text for text.
fn copy_names(names: &Vec<String>) -> (copy: Vec<String>)
    ensures
        texts_of(copy@) == texts_of(names@),
{
    let mut copy: Vec<String> = Vec::new();
    let mut i: usize = 0;
    while i < names.len()
        invariant
            i <= names@.len(),
            copy@.len() == i,
            forall|j: int| 0 <= j < i ==> copy@[j]@ == names@[j]@,
        decreases names@.len() - i,
    {
        copy.push(names[i].clone());
        i += 1;
    }
    copy
}

} // verus!
