use frida_gg::bindings::{Bindings, EngineReply, Stage, Step};
use frida_gg::device::{Device, Process};
use frida_gg::engine::{EngineCall, Reply};
use frida_gg::error::Error;
use frida_gg::script::ScriptStatus;
use frida_gg::server::start_frida_bindings;

fn device() -> Device {
    Device::from_raw(3, b"remote".to_vec(), b"socket@localhost".to_vec(), 1, 0)
}

fn processes() -> Vec<Process> {
    vec![
        Process { pid: 1, name: "init".to_string() },
        Process { pid: 1234, name: "com.target.app".to_string() },
    ]
}

fn failed<T>(value: T, code: i32, message: &str) -> Reply<T> {
    Reply::failure(value, code, message.as_bytes().to_vec())
}

fn attached(source: &str) -> Bindings {
    let (mut bindings, _) = start_frida_bindings(&device(), 1234, source);
    let _ = bindings.advance(EngineReply::Processes(Reply::success(processes())));
    bindings
}

#[test]
fn script_is_loaded_in_four_calls() {
    let (mut bindings, call) = start_frida_bindings(&device(), 1234, "send(1)");
    assert_eq!(call, EngineCall::EnumerateProcesses { device: 3 });
    assert_eq!(bindings.stage(), Stage::Unattached);
    assert_eq!(bindings.source(), "send(1)");
    assert!(bindings.session().is_none());

    let step = bindings.advance(EngineReply::Processes(Reply::success(processes())));
    assert_eq!(step, Step::Call(EngineCall::Attach { device: 3, pid: 1234 }));
    assert_eq!(bindings.stage(), Stage::Unattached);

    let step = bindings.advance(EngineReply::Attached { reply: Reply::success(50), detached: 0 });
    assert_eq!(step, Step::Call(EngineCall::CreateScript { session: 50 }));
    assert_eq!(bindings.stage(), Stage::Attached);
    assert_eq!(bindings.session().map(|session| session.handle()), Some(50));
    assert_eq!(bindings.session().map(|session| session.pid()), Some(1234));
    assert!(bindings.script().is_none());

    let step = bindings.advance(EngineReply::ScriptCreated(Reply::success(60)));
    assert_eq!(step, Step::Call(EngineCall::Load { script: 60 }));
    assert_eq!(bindings.stage(), Stage::ScriptCreated);
    assert_eq!(bindings.script().map(|script| script.status()), Some(ScriptStatus::Created));

    let step = bindings.advance(EngineReply::Loaded(Reply::success(())));
    assert_eq!(step, Step::Done(Ok((200, "com.target.app".to_string()))));
    assert_eq!(bindings.stage(), Stage::ScriptLoaded);
    assert_eq!(bindings.script().map(|script| script.status()), Some(ScriptStatus::Loaded));
    assert_eq!(bindings.script().map(|script| script.has_handler()), Some(false));
}

#[test]
fn process_that_is_not_listed_has_no_name() {
    let (mut bindings, _) = start_frida_bindings(&device(), 999, "x");
    let _ = bindings.advance(EngineReply::Processes(Reply::success(processes())));
    let _ = bindings.advance(EngineReply::Attached { reply: Reply::success(50), detached: 0 });
    let _ = bindings.advance(EngineReply::ScriptCreated(Reply::success(60)));
    let step = bindings.advance(EngineReply::Loaded(Reply::success(())));
    assert_eq!(step, Step::Done(Ok((200, String::new()))));
}

#[test]
fn handler_is_registered_when_asked_for() {
    let (mut bindings, _) = Bindings::begin(&device(), 1234, "", true);
    let _ = bindings.advance(EngineReply::Processes(Reply::success(processes())));
    let _ = bindings.advance(EngineReply::Attached { reply: Reply::success(50), detached: 0 });
    let _ = bindings.advance(EngineReply::ScriptCreated(Reply::success(60)));
    let step = bindings.advance(EngineReply::Loaded(Reply::success(())));
    assert_eq!(step, Step::Done(Ok((200, "com.target.app".to_string()))));
    assert_eq!(bindings.script().map(|script| script.has_handler()), Some(true));
}

#[test]
fn failure_to_list_processes_ends_the_way() {
    let (mut bindings, _) = start_frida_bindings(&device(), 1234, "x");
    let step = bindings.advance(EngineReply::Processes(failed(vec![], 1, "lost")));
    assert_eq!(step, Step::Done(Err(Error::ProcessesEnumerationFailed)));
    assert_eq!(bindings.stage(), Stage::Terminated);
}

#[test]
fn failure_to_attach_ends_the_way() {
    let mut bindings = attached("x");
    let step = bindings.advance(EngineReply::Attached { reply: failed(0, 3, "denied"), detached: 0 });
    assert_eq!(
        step,
        Step::Done(Err(Error::AttachFailed { code: 3, message: "denied".to_string() }))
    );
    assert_eq!(bindings.stage(), Stage::Terminated);
    assert!(bindings.session().is_none());
}

#[test]
fn detached_session_ends_the_way_before_a_script_is_created() {
    let mut bindings = attached("x");
    let step = bindings.advance(EngineReply::Attached { reply: Reply::success(50), detached: 1 });
    assert_eq!(step, Step::Done(Err(Error::SessionDetached)));
    assert_eq!(bindings.stage(), Stage::Terminated);
    assert_eq!(bindings.session().map(|session| session.is_detached()), Some(true));
    let step = bindings.advance(EngineReply::ScriptCreated(Reply::success(60)));
    assert_eq!(step, Step::Done(Err(Error::UnexpectedReply)));
    assert!(bindings.script().is_none());
}

#[test]
fn source_with_nul_ends_the_way_before_a_script_is_created() {
    let mut bindings = attached("a\0b");
    let step = bindings.advance(EngineReply::Attached { reply: Reply::success(50), detached: 0 });
    assert_eq!(step, Step::Done(Err(Error::EncodingError)));
    assert_eq!(bindings.stage(), Stage::Terminated);
}

#[test]
fn failure_to_create_or_load_ends_the_way() {
    let mut bindings = attached("x");
    let _ = bindings.advance(EngineReply::Attached { reply: Reply::success(50), detached: 0 });
    let step = bindings.advance(EngineReply::ScriptCreated(failed(0, 1, "syntax")));
    assert_eq!(step, Step::Done(Err(Error::ScriptCreationFailed)));
    assert_eq!(bindings.stage(), Stage::Terminated);

    let mut bindings = attached("x");
    let _ = bindings.advance(EngineReply::Attached { reply: Reply::success(50), detached: 0 });
    let _ = bindings.advance(EngineReply::ScriptCreated(Reply::success(60)));
    let step = bindings.advance(EngineReply::Loaded(failed((), 1, "crash")));
    assert_eq!(step, Step::Done(Err(Error::LoadFailed)));
    assert_eq!(bindings.stage(), Stage::Terminated);
    assert_eq!(bindings.script().map(|script| script.status()), Some(ScriptStatus::Created));
}

#[test]
fn answer_out_of_turn_changes_nothing() {
    let (mut bindings, _) = start_frida_bindings(&device(), 1234, "x");
    let step = bindings.advance(EngineReply::Attached { reply: Reply::success(50), detached: 0 });
    assert_eq!(step, Step::Done(Err(Error::UnexpectedReply)));
    assert_eq!(bindings.stage(), Stage::Unattached);
    let step = bindings.advance(EngineReply::Loaded(Reply::success(())));
    assert_eq!(step, Step::Done(Err(Error::UnexpectedReply)));
    let step = bindings.advance(EngineReply::Processes(Reply::success(processes())));
    assert_eq!(step, Step::Call(EngineCall::Attach { device: 3, pid: 1234 }));
    let step = bindings.advance(EngineReply::Processes(Reply::success(processes())));
    assert_eq!(step, Step::Done(Err(Error::UnexpectedReply)));
    assert_eq!(bindings.stage(), Stage::Unattached);
}
