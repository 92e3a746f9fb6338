use frida_gg::device::Device;
use frida_gg::engine::{EngineCall, Fault, Reply};
use frida_gg::error::Error;
use frida_gg::script::ScriptStatus;
use frida_gg::session::Session;

fn device() -> Device {
    Device::from_raw(1, b"Pixel".to_vec(), b"usb-1".to_vec(), 2, 0)
}

fn session() -> Session {
    device().attach(1234, Reply::success(40)).unwrap()
}

fn fault(code: i32, message: &str) -> Fault {
    Fault { code, message: message.as_bytes().to_vec() }
}

#[test]
fn attached_session_is_not_detached() {
    let session = session();
    assert!(!session.is_detached());
    assert_eq!(session.handle(), 40);
    assert_eq!(session.pid(), 1234);
}

#[test]
fn create_script_on_detached_session_always_fails() {
    let mut session = session();
    session.detach(None).unwrap();
    assert!(session.is_detached());
    assert_eq!(session.script_request("send(1)"), Err(Error::SessionDetached));
    assert_eq!(session.create_script("send(1)", Reply::success(5)).err(), Some(Error::SessionDetached));
    assert_eq!(
        session.create_script("bad\0source", Reply::failure(0, 3, b"no".to_vec())).err(),
        Some(Error::SessionDetached)
    );
}

#[test]
fn source_with_nul_is_an_encoding_error() {
    let session = session();
    assert_eq!(session.script_request("a\0b"), Err(Error::EncodingError));
    assert_eq!(session.create_script("a\0b", Reply::success(5)).err(), Some(Error::EncodingError));
}

#[test]
fn script_is_created_from_the_reply() {
    let session = session();
    assert_eq!(session.script_request("send(1)"), Ok(EngineCall::CreateScript { session: 40 }));
    let script = session.create_script("send(1)", Reply::success(77)).unwrap();
    assert_eq!(script.handle(), 77);
    assert_eq!(script.status(), ScriptStatus::Created);
    assert!(!script.is_loaded());
    assert!(script.exports().is_empty());
    assert!(!script.has_handler());
}

#[test]
fn engine_fault_on_creation_is_script_creation_failed() {
    let session = session();
    assert_eq!(
        session.create_script("x", Reply::failure(0, 1, b"syntax".to_vec())).err(),
        Some(Error::ScriptCreationFailed)
    );
}

#[test]
fn detach_is_a_no_op_the_second_time() {
    let mut session = session();
    assert_eq!(session.detach(None), Ok(()));
    assert!(session.is_detached());
    assert_eq!(session.detach(None), Ok(()));
    assert_eq!(session.detach(Some(fault(9, "gone"))), Ok(()));
    assert!(session.is_detached());
}

#[test]
fn detach_failure_carries_code_and_message_and_still_detaches() {
    let mut session = session();
    assert_eq!(
        session.detach(Some(fault(4, "transport closed"))),
        Err(Error::DetachFailed { code: 4, message: "transport closed".to_string() })
    );
    assert!(session.is_detached());
}

#[test]
fn observe_takes_the_flag_one_only() {
    let mut session = session();
    session.observe(0);
    assert!(!session.is_detached());
    session.observe(2);
    assert!(!session.is_detached());
    session.observe(1);
    assert!(session.is_detached());
    session.observe(0);
    assert!(session.is_detached());
}

#[test]
fn script_is_loaded_once() {
    let session = session();
    let mut script = session.create_script("x", Reply::success(2)).unwrap();
    assert!(script.is_created());
    assert_eq!(script.load(Reply::success(())), Ok(()));
    assert!(script.is_loaded());
    assert_eq!(script.status(), ScriptStatus::Loaded);
    assert_eq!(script.load(Reply::success(())), Err(Error::ScriptStateInvalid));
    assert!(script.is_loaded());
}

#[test]
fn load_failure_leaves_the_script_created() {
    let session = session();
    let mut script = session.create_script("x", Reply::success(2)).unwrap();
    assert_eq!(script.load(Reply::failure((), 1, b"boom".to_vec())), Err(Error::LoadFailed));
    assert_eq!(script.status(), ScriptStatus::Created);
    assert_eq!(script.load(Reply::success(())), Ok(()));
}

#[test]
fn exports_are_listed_of_a_loaded_script_only() {
    let session = session();
    let mut script = session.create_script("x", Reply::success(2)).unwrap();
    assert_eq!(script.list_exports(vec!["f".to_string()]), Err(Error::ScriptStateInvalid));
    assert!(script.exports().is_empty());
    script.load(Reply::success(())).unwrap();
    assert_eq!(script.list_exports(vec![]), Ok(vec![]));
    assert_eq!(
        script.list_exports(vec!["add".to_string(), "sub".to_string()]),
        Ok(vec!["add".to_string(), "sub".to_string()])
    );
    assert_eq!(script.exports(), &vec!["add".to_string(), "sub".to_string()]);
}

#[test]
fn second_handler_is_refused() {
    let session = session();
    let mut script = session.create_script("x", Reply::success(2)).unwrap();
    assert_eq!(script.handle_message(), Ok(()));
    assert!(script.has_handler());
    assert_eq!(script.handle_message(), Err(Error::HandlerAlreadyRegistered));
    assert!(script.has_handler());
}

#[test]
fn unload_needs_a_loaded_script() {
    let session = session();
    let mut script = session.create_script("x", Reply::success(2)).unwrap();
    assert_eq!(script.unload(Reply::success(())), Err(Error::ScriptStateInvalid));
    script.load(Reply::success(())).unwrap();
    assert_eq!(script.unload(Reply::failure((), 2, b"no".to_vec())), Err(Error::UnloadFailed));
    assert_eq!(script.status(), ScriptStatus::Loaded);
    assert_eq!(script.unload(Reply::success(())), Ok(()));
    assert_eq!(script.status(), ScriptStatus::Unloaded);
    assert_eq!(script.load(Reply::success(())), Err(Error::ScriptStateInvalid));
}
