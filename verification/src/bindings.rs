//! The way from a device to a loaded script, one call into the engine at a
//! time.
//!
//! Attaching to a process and loading a script into it takes four calls into
//! the engine: list the processes, attach, create the script, load it. After
//! each call the outcome decides what comes next. [`Bindings`] holds how far
//! the way has come. The caller makes the call that it is told to make, hands
//! the engine's answer to [`Bindings::advance`], and is told the next call, or
//! how the way ended.

use vstd::prelude::*;
use crate::device::{find_process_name, name_of_pid, Device, Process};
use crate::engine::{fault_failure, EngineCall, Operation, Reply};
use crate::error::{Error, Failure};
use crate::script::{Script, ScriptState, ScriptStatus};
use crate::session::{Session, SessionState};
use crate::text::nul_free;

verus! {

/// How far the way to a loaded script has come.
#[derive(Debug, Clone, Copy, PartialEq, Eq, Structural)]
pub enum Stage {
    /// No session yet.
    Unattached,
    /// A session, and no script yet.
    Attached,
    /// A script that is not loaded yet.
    ScriptCreated,
    /// A loaded script: the way has ended well.
    ScriptLoaded,
    /// The way has ended with a failure.
    Terminated,
}

/// An answer of the engine to one of the calls on the way.
#[derive(Debug)]
pub enum EngineReply {
    /// To `EnumerateProcesses`: the processes of the device.
    Processes(Reply<Vec<Process>>),
    /// To `Attach`: the handle of the session, and the flag that the engine
    /// gives when it is asked whether that session is detached.
    Attached { reply: Reply<u64>, detached: i32 },
    /// To `CreateScript`: the handle of the script.
    ScriptCreated(Reply<u64>),
    /// To `Load`.
    Loaded(Reply<()>),
}

/// What the caller is to do next.
#[derive(Debug, PartialEq, Eq)]
pub enum Step {
    /// Make this call and hand in the engine's answer.
    Call(EngineCall),
    /// Nothing: the way has ended, with the status to report and the name of
    /// the process that the script was loaded into, or with a failure.
    Done(Result<(i32, String), Error>),
}

/// A [`Step`], as a mathematical value.
pub enum Outcome {
    Call(EngineCall),
    Finished { status: i32, package: Seq<char> },
    Failed(Failure),
}

impl View for Step {
    type V = Outcome;

    open spec fn view(&self) -> Outcome {
        match *self {
            Step::Call(call) => Outcome::Call(call),
            Step::Done(Ok((status, package))) => Outcome::Finished { status, package: package@ },
            Step::Done(Err(error)) => Outcome::Failed(error@),
        }
    }
}

/// The way from a device to a script loaded into the process `pid`.
#[derive(Debug)]
pub struct Bindings {
    device: u64,
    pid: u32,
    source: String,
    with_handler: bool,
    stage: Stage,
    listed: bool,
    processes: Vec<Process>,
    session: Option<Session>,
    script: Option<Script>,
}

/// What a [`Bindings`] holds, as plain values.
pub struct BindingsState {
    pub device: u64,
    pub pid: u32,
    pub source: Seq<char>,
    pub with_handler: bool,
    pub stage: Stage,
    pub listed: bool,
    pub processes: Seq<Process>,
    pub session: Option<SessionState>,
    pub script: Option<ScriptState>,
}

impl View for Bindings {
    type V = BindingsState;

    closed spec fn view(&self) -> BindingsState {
        BindingsState {
            device: self.device,
            pid: self.pid,
            source: self.source@,
            with_handler: self.with_handler,
            stage: self.stage,
            listed: self.listed,
            processes: self.processes@,
            session: match self.session {
                Some(session) => Some(session@),
                None => None,
            },
            script: match self.script {
                Some(script) => Some(script@),
                None => None,
            },
        }
    }
}

/// The status that is reported for a script that was loaded.
pub const STATUS_LOADED: i32 = 200;

/// Where the way begins: nothing is known of the device's processes, and there
/// is neither a session nor a script.
pub open spec fn initial(device: u64, pid: u32, source: Seq<char>, with_handler: bool) -> BindingsState {
    BindingsState {
        device,
        pid,
        source,
        with_handler,
        stage: Stage::Unattached,
        listed: false,
        processes: Seq::empty(),
        session: None,
        script: None,
    }
}

/// The state after a failure: what was reached stays, to be released.
pub open spec fn terminated(state: BindingsState) -> BindingsState {
    BindingsState { stage: Stage::Terminated, ..state }
}

/// What the list of processes leads to: the call that attaches, or the end
/// where the engine could not list them.
pub open spec fn after_processes(state: BindingsState, reply: Reply<Vec<Process>>) -> (
    BindingsState,
    Outcome,
) {
    match reply.error {
        Some(_) => (terminated(state), Outcome::Failed(Failure::ProcessesEnumerationFailed)),
        None => (
            BindingsState { listed: true, processes: reply.value@, ..state },
            Outcome::Call(EngineCall::Attach { device: state.device, pid: state.pid }),
        ),
    }
}

/// What the answer to the call that attaches leads to: the call that creates
/// the script, or the end where the engine could not attach, where the session
/// is detached already, or where the source cannot be handed over.
pub open spec fn after_attach(state: BindingsState, reply: Reply<u64>, detached: i32) -> (
    BindingsState,
    Outcome,
) {
    match reply.error {
        Some(fault) => (
            terminated(state),
            Outcome::Failed(fault_failure(Operation::Attach, fault)),
        ),
        None => {
            let session = SessionState {
                handle: reply.value,
                pid: state.pid,
                detached: detached == 1,
            };
            let attached = BindingsState { session: Some(session), ..state };
            if detached == 1 {
                (terminated(attached), Outcome::Failed(Failure::SessionDetached))
            } else if !nul_free(state.source) {
                (terminated(attached), Outcome::Failed(Failure::EncodingError))
            } else {
                (
                    BindingsState { stage: Stage::Attached, ..attached },
                    Outcome::Call(EngineCall::CreateScript { session: reply.value }),
                )
            }
        },
    }
}

/// What the answer to the call that creates the script leads to: the call that
/// loads it, or the end where the engine could not create it.
pub open spec fn after_script(state: BindingsState, session: SessionState, reply: Reply<u64>) -> (
    BindingsState,
    Outcome,
) {
    match reply.error {
        Some(_) => (terminated(state), Outcome::Failed(Failure::ScriptCreationFailed)),
        None => (
            BindingsState {
                stage: Stage::ScriptCreated,
                script: Some(
                    ScriptState {
                        handle: reply.value,
                        session: session.handle,
                        status: ScriptStatus::Created,
                        exports: Seq::empty(),
                        handler: false,
                    },
                ),
                ..state
            },
            Outcome::Call(EngineCall::Load { script: reply.value }),
        ),
    }
}

/// What the answer to the call that loads the script leads to: the good end,
/// with the name of the process, or the end where the engine could not load it.
pub open spec fn after_load(state: BindingsState, script: ScriptState, reply: Reply<()>) -> (
    BindingsState,
    Outcome,
) {
    match reply.error {
        Some(_) => (terminated(state), Outcome::Failed(Failure::LoadFailed)),
        None => (
            BindingsState {
                stage: Stage::ScriptLoaded,
                script: Some(
                    ScriptState {
                        status: ScriptStatus::Loaded,
                        handler: state.with_handler,
                        ..script
                    },
                ),
                ..state
            },
            Outcome::Finished {
                status: STATUS_LOADED,
                package: name_of_pid(state.processes, state.pid),
            },
        ),
    }
}

/// The state that an answer of the engine leads to, and what the caller is to
/// do next. An answer to a call that was not asked for changes nothing and is
/// reported as `UnexpectedReply`.
pub open spec fn advance_spec(state: BindingsState, reply: EngineReply) -> (BindingsState, Outcome) {
    match (state.stage, reply) {
        (Stage::Unattached, EngineReply::Processes(reply)) => if state.listed {
            (state, Outcome::Failed(Failure::UnexpectedReply))
        } else {
            after_processes(state, reply)
        },
        (Stage::Unattached, EngineReply::Attached { reply, detached }) => if state.listed {
            after_attach(state, reply, detached)
        } else {
            (state, Outcome::Failed(Failure::UnexpectedReply))
        },
        (Stage::Attached, EngineReply::ScriptCreated(reply)) => match state.session {
            Some(session) => after_script(state, session, reply),
            None => (state, Outcome::Failed(Failure::UnexpectedReply)),
        },
        (Stage::ScriptCreated, EngineReply::Loaded(reply)) => match state.script {
            Some(script) => if script.status == ScriptStatus::Created && !script.handler {
                after_load(state, script, reply)
            } else {
                (state, Outcome::Failed(Failure::UnexpectedReply))
            },
            None => (state, Outcome::Failed(Failure::UnexpectedReply)),
        },
        _ => (state, Outcome::Failed(Failure::UnexpectedReply)),
    }
}

impl Bindings {
    /// Begins the way to a script with the source `source` loaded into the
    /// process `pid` on `device`, and says the first call to make. With
    /// `with_handler` the script gets its message handler when it is loaded.
    pub fn begin(device: &Device, pid: u32, source: &str, with_handler: bool) -> (begun: (
        Bindings,
        EngineCall,
    ))
        ensures
            begun.0@ == initial(device@.handle, pid, source@, with_handler),
            begun.1 == (EngineCall::EnumerateProcesses { device: device@.handle }),
    {
        let bindings = Bindings {
            device: device.handle(),
            pid,
            source: source.to_owned(),
            with_handler,
            stage: Stage::Unattached,
            listed: false,
            processes: Vec::new(),
            session: None,
            script: None,
        };
        (bindings, EngineCall::EnumerateProcesses { device: device.handle() })
    }

    /// How far the way has come.
    pub fn stage(&self) -> (stage: Stage)
        ensures
            stage == self@.stage,
    {
        self.stage
    }

    /// The source of the script that is to be created.
    pub fn source(&self) -> (source: &str)
        ensures
            source@ == self@.source,
    {
        self.source.as_str()
    }

    /// The session, once the engine has attached.
    pub fn session(&self) -> (session: Option<&Session>)
        ensures
            match session {
                Some(held) => self@.session == Some(held@),
                None => self@.session is None,
            },
    {
        self.session.as_ref()
    }

    /// The script, once the engine has created it.
    pub fn script(&self) -> (script: Option<&Script>)
        ensures
            match script {
                Some(held) => self@.script == Some(held@),
                None => self@.script is None,
            },
    {
        self.script.as_ref()
    }

    /// Takes an answer of the engine and says what to do next.
    pub fn advance(&mut self, reply: EngineReply) -> (step: Step)
        ensures
            (final(self)@, step@) == advance_spec(old(self)@, reply),
    {
        match (self.stage, reply) {
            (Stage::Unattached, EngineReply::Processes(reply)) => {
                if self.listed {
                    return Step::Done(Err(Error::UnexpectedReply));
                }
                match reply.error {
                    Some(_) => {
                        self.stage = Stage::Terminated;
                        Step::Done(Err(Error::ProcessesEnumerationFailed))
                    },
                    None => {
                        self.listed = true;
                        self.processes = reply.value;
                        Step::Call(EngineCall::Attach { device: self.device, pid: self.pid })
                    },
                }
            },
            (Stage::Unattached, EngineReply::Attached { reply, detached }) => {
                if !self.listed {
                    return Step::Done(Err(Error::UnexpectedReply));
                }
                match reply.error {
                    Some(fault) => {
                        self.stage = Stage::Terminated;
                        Step::Done(Err(fault.into_error(Operation::Attach)))
                    },
                    None => {
                        let mut session = Session::from_raw(reply.value, self.pid);
                        session.observe(detached);
                        let request = session.script_request(self.source.as_str());
                        self.session = Some(session);
                        match request {
                            Ok(call) => {
                                self.stage = Stage::Attached;
                                Step::Call(call)
                            },
                            Err(error) => {
                                self.stage = Stage::Terminated;
                                Step::Done(Err(error))
                            },
                        }
                    },
                }
            },
            (Stage::Attached, EngineReply::ScriptCreated(reply)) => {
                let owner = match &self.session {
                    Some(session) => session.handle(),
                    None => {
                        return Step::Done(Err(Error::UnexpectedReply));
                    },
                };
                match reply.error {
                    Some(_) => {
                        self.stage = Stage::Terminated;
                        Step::Done(Err(Error::ScriptCreationFailed))
                    },
                    None => {
                        let script = Script::from_raw(reply.value, owner);
                        self.script = Some(script);
                        self.stage = Stage::ScriptCreated;
                        Step::Call(EngineCall::Load { script: reply.value })
                    },
                }
            },
            (Stage::ScriptCreated, EngineReply::Loaded(reply)) => {
                let fresh = match &self.script {
                    Some(script) => script.is_created() && !script.has_handler(),
                    None => false,
                };
                if !fresh {
                    return Step::Done(Err(Error::UnexpectedReply));
                }
                let mut script = match self.script.take() {
                    Some(script) => script,
                    None => {
                        return Step::Done(Err(Error::UnexpectedReply));
                    },
                };
                match script.load(reply) {
                    Err(error) => {
                        self.script = Some(script);
                        self.stage = Stage::Terminated;
                        Step::Done(Err(error))
                    },
                    Ok(()) => {
                        if self.with_handler {
                            let _ = script.handle_message();
                        }
                        self.script = Some(script);
                        self.stage = Stage::ScriptLoaded;
                        Step::Done(Ok((STATUS_LOADED, find_process_name(&self.processes, self.pid))))
                    },
                }
            },
            _ => Step::Done(Err(Error::UnexpectedReply)),
        }
    }
}

/// What holds of the state at each stage of the way: there is a session from
/// the stage `Attached` on, it is not detached and is with the process that was
/// asked for, and the source can be handed over; there is a script from the
/// stage `ScriptCreated` on, it belongs to the session, and it is loaded at the
/// stage `ScriptLoaded` and at no other one.
pub open spec fn consistent(state: BindingsState) -> bool {
    match state.stage {
        Stage::Unattached => state.session is None && state.script is None,
        Stage::Attached => state.listed && state.script is None && attached_to(state),
        Stage::ScriptCreated => state.listed && attached_to(state) && holds_script(
            state,
            ScriptStatus::Created,
            false,
        ),
        Stage::ScriptLoaded => state.listed && attached_to(state) && holds_script(
            state,
            ScriptStatus::Loaded,
            state.with_handler,
        ),
        Stage::Terminated => match state.script {
            Some(script) => script.status == ScriptStatus::Created && !script.handler
                && attached_to(state),
            None => true,
        },
    }
}

/// Whether the state holds a session that is not detached, with the process
/// that was asked for, and a source that can be handed over.
pub open spec fn attached_to(state: BindingsState) -> bool {
    match state.session {
        Some(session) => !session.detached && session.pid == state.pid && nul_free(state.source),
        None => false,
    }
}

/// Whether the state holds a script of its session with this status and this
/// handler flag.
pub open spec fn holds_script(state: BindingsState, status: ScriptStatus, handler: bool) -> bool {
    match (state.session, state.script) {
        (Some(session), Some(script)) => script.session == session.handle && script.status
            == status && script.handler == handler,
        _ => false,
    }
}

/// The way begins in a state of which that holds.
pub proof fn lemma_initial_consistent(device: u64, pid: u32, source: Seq<char>, with_handler: bool)
    ensures
        consistent(initial(device, pid, source, with_handler)),
{
}

/// Whatever the engine answers, it holds of the next state too.
pub proof fn lemma_advance_keeps_consistent(state: BindingsState, reply: EngineReply)
    requires
        consistent(state),
    ensures
        consistent(advance_spec(state, reply).0),
{
}

/// A call is asked for only at the stage that it belongs to: attaching before
/// there is a session, creating the script in the session that was attached and
/// is not detached, loading the script that was created. The processes are not
/// listed a second time.
pub proof fn lemma_call_belongs_to_stage(state: BindingsState, reply: EngineReply)
    requires
        consistent(state),
    ensures
        match advance_spec(state, reply).1 {
            Outcome::Call(EngineCall::EnumerateProcesses { .. }) => false,
            Outcome::Call(EngineCall::Attach { device, pid }) => advance_spec(state, reply).0.stage
                == Stage::Unattached && device == state.device && pid == state.pid,
            Outcome::Call(EngineCall::CreateScript { session }) => advance_spec(
                state,
                reply,
            ).0.stage == Stage::Attached && advance_spec(state, reply).0.session == Some(
                SessionState { handle: session, pid: state.pid, detached: false },
            ),
            Outcome::Call(EngineCall::Load { script }) => advance_spec(state, reply).0.stage
                == Stage::ScriptCreated && holds_script(
                advance_spec(state, reply).0,
                ScriptStatus::Created,
                false,
            ) && advance_spec(state, reply).0.script->0.handle == script,
            Outcome::Finished { status, .. } => advance_spec(state, reply).0.stage
                == Stage::ScriptLoaded && status == STATUS_LOADED,
            Outcome::Failed(failure) => advance_spec(state, reply).0.stage == Stage::Terminated || (
            failure == Failure::UnexpectedReply && advance_spec(state, reply).0 == state),
        },
{
}

/// Once the way has ended, no answer of the engine changes anything.
pub proof fn lemma_end_is_final(state: BindingsState, reply: EngineReply)
    requires
        state.stage == Stage::ScriptLoaded || state.stage == Stage::Terminated,
    ensures
        advance_spec(state, reply) == (state, Outcome::Failed(Failure::UnexpectedReply)),
{
}

} // verus!
