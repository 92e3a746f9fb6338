use frida_gg::decoder::{Payload, RawValue};
use frida_gg::device::{find_process_name, Device, DeviceType, Process};
use frida_gg::engine::{Fault, Operation, Reply};
use frida_gg::error::Error;
use frida_gg::frida::Frida;
use frida_gg::variant::Variant;

fn device() -> Device {
    Device::from_raw(9, b"Local System".to_vec(), b"local".to_vec(), 0, 0)
}

fn failed<T>(value: T, code: i32, message: &str) -> Reply<T> {
    Reply::failure(value, code, message.as_bytes().to_vec())
}

#[test]
fn name_and_id_are_read_as_text() {
    let device = device();
    assert_eq!(device.get_name(), "Local System");
    assert_eq!(device.get_id(), "local");
    assert_eq!(device.handle(), 9);
    let device = Device::from_raw(1, "Gerät".as_bytes().to_vec(), vec![], 1, 0);
    assert_eq!(device.get_name(), "Gerät");
    assert_eq!(device.get_id(), "");
}

#[test]
fn device_is_made_from_the_reply_of_its_lookup() {
    let found = Device::from_reply(Reply::success(12), b"n".to_vec(), b"i".to_vec(), 2, 1).unwrap();
    assert_eq!(found.handle(), 12);
    assert_eq!(found.get_name(), "n");
    assert_eq!(found.get_id(), "i");
    assert_eq!(found.get_type(), DeviceType::USB);
    assert!(found.is_lost());
    assert_eq!(
        Device::from_reply(failed(0, 1, "unreachable"), vec![], vec![], 0, 0).err(),
        Some(Error::DeviceLookupFailed)
    );
}

#[test]
fn name_that_is_not_utf8_is_empty() {
    let device = Device::from_raw(1, vec![0x66, 0xff, 0x6f], vec![0xc3], 1, 0);
    assert_eq!(device.get_name(), "");
    assert_eq!(device.get_id(), "");
}

#[test]
fn version_is_read_as_text() {
    assert_eq!(Frida::from_raw(b"16.1.4".to_vec()).version(), "16.1.4");
    assert_eq!(Frida::from_raw(vec![0x80]).version(), "");
}

#[test]
fn type_is_read_from_the_number() {
    assert_eq!(Device::from_raw(1, vec![], vec![], 0, 0).get_type(), DeviceType::Local);
    assert_eq!(Device::from_raw(1, vec![], vec![], 1, 0).get_type(), DeviceType::Remote);
    assert_eq!(Device::from_raw(1, vec![], vec![], 2, 0).get_type(), DeviceType::USB);
    assert_eq!(Device::from_raw(1, vec![], vec![], 3, 0).get_type(), DeviceType::Remote);
    assert_eq!(Device::from_raw(1, vec![], vec![], u32::MAX, 0).get_type(), DeviceType::Remote);
}

#[test]
fn device_type_numbers_and_names() {
    for kind in vec![DeviceType::Local, DeviceType::Remote, DeviceType::USB] {
        assert_eq!(DeviceType::from_code(kind.code()), kind);
    }
    assert_eq!(DeviceType::Local.code(), 0);
    assert_eq!(DeviceType::Remote.code(), 1);
    assert_eq!(DeviceType::USB.code(), 2);
    assert_eq!(DeviceType::Local.name(), "Local");
    assert_eq!(DeviceType::Remote.name(), "Remote");
    assert_eq!(DeviceType::USB.name(), "USB");
}

#[test]
fn lost_is_the_flag_one() {
    assert!(!Device::from_raw(1, vec![], vec![], 0, 0).is_lost());
    assert!(Device::from_raw(1, vec![], vec![], 0, 1).is_lost());
    assert!(!Device::from_raw(1, vec![], vec![], 0, 2).is_lost());
    assert!(!Device::from_raw(1, vec![], vec![], 0, -1).is_lost());
}

#[test]
fn attach_failure_carries_code_and_message() {
    let result = device().attach(1234, failed(0, 5, "process not found"));
    assert_eq!(
        result.err(),
        Some(Error::AttachFailed { code: 5, message: "process not found".to_string() })
    );
}

#[test]
fn fault_with_a_message_that_is_not_utf8_is_an_encoding_error() {
    let result = device().attach(1, Reply::failure(0, 5, vec![0xff, 0xfe]));
    assert_eq!(result.err(), Some(Error::EncodingError));
    let fault = Fault { code: 1, message: vec![0xc0] };
    assert_eq!(fault.into_error(Operation::Kill), Error::EncodingError);
}

#[test]
fn fault_becomes_the_failure_of_its_operation() {
    let fault = |code: i32| Fault { code, message: b"m".to_vec() };
    let message = || "m".to_string();
    assert_eq!(fault(1).into_error(Operation::Attach), Error::AttachFailed { code: 1, message: message() });
    assert_eq!(fault(2).into_error(Operation::Spawn), Error::SpawnFailed { code: 2, message: message() });
    assert_eq!(fault(3).into_error(Operation::Resume), Error::ResumeFailed { code: 3, message: message() });
    assert_eq!(fault(4).into_error(Operation::Kill), Error::KillFailed { code: 4, message: message() });
    assert_eq!(fault(5).into_error(Operation::Detach), Error::DetachFailed { code: 5, message: message() });
    assert_eq!(fault(-6).into_error(Operation::Query), Error::QueryFailed { code: -6, message: message() });
}

#[test]
fn reply_becomes_a_result() {
    assert_eq!(Reply::success(3u32).into_result(), Ok(3));
    assert_eq!(
        failed(0u32, 8, "no").into_result(),
        Err(Fault { code: 8, message: b"no".to_vec() })
    );
}

#[test]
fn spawn_gives_the_pid() {
    let mut device = device();
    assert_eq!(device.spawn("/bin/app", Reply::success(4321)), Ok(4321));
    assert_eq!(
        device.spawn("/bin/app", failed(0, 2, "not executable")),
        Err(Error::SpawnFailed { code: 2, message: "not executable".to_string() })
    );
}

#[test]
fn spawn_of_a_program_with_nul_is_an_encoding_error() {
    let mut device = device();
    assert_eq!(device.spawn("/bin/\0app", Reply::success(4321)), Err(Error::EncodingError));
    assert_eq!(device.spawn("\0", failed(0, 2, "x")), Err(Error::EncodingError));
}

#[test]
fn resume_and_kill() {
    let mut device = device();
    assert_eq!(device.resume(5, Reply::success(())), Ok(()));
    assert_eq!(
        device.resume(5, failed((), 7, "no such process")),
        Err(Error::ResumeFailed { code: 7, message: "no such process".to_string() })
    );
    assert_eq!(device.kill(5, Reply::success(())), Ok(()));
    assert_eq!(
        device.kill(5, failed((), 3, "denied")),
        Err(Error::KillFailed { code: 3, message: "denied".to_string() })
    );
}

#[test]
fn processes_are_handed_on() {
    let list = vec![
        Process { pid: 1, name: "init".to_string() },
        Process { pid: 1234, name: "com.target.app".to_string() },
    ];
    let listed = device().enumerate_processes(Reply::success(list)).unwrap();
    assert_eq!(listed.len(), 2);
    assert_eq!(listed[1], Process { pid: 1234, name: "com.target.app".to_string() });
    assert_eq!(
        device().enumerate_processes(failed(vec![], 1, "x")),
        Err(Error::ProcessesEnumerationFailed)
    );
}

#[test]
fn first_process_with_the_pid_gives_the_name() {
    let list = vec![
        Process { pid: 1, name: "init".to_string() },
        Process { pid: 7, name: "first".to_string() },
        Process { pid: 7, name: "second".to_string() },
    ];
    assert_eq!(find_process_name(&list, 7), "first");
    assert_eq!(find_process_name(&list, 1), "init");
    assert_eq!(find_process_name(&list, 8), "");
    assert_eq!(find_process_name(&vec![], 1), "");
}

#[test]
fn system_parameters_are_decoded() {
    let table = vec![
        (
            "os".to_string(),
            RawValue {
                descriptor: "a{sv}".to_string(),
                payload: Payload::Entries(vec![(
                    "version".to_string(),
                    RawValue { descriptor: "s".to_string(), payload: Payload::Text("13".to_string()) },
                )]),
            },
        ),
        ("arch".to_string(), RawValue { descriptor: "s".to_string(), payload: Payload::Text("arm64".to_string()) }),
    ];
    let parameters = device().query_system_parameters(Reply::success(table)).unwrap();
    let version = parameters
        .get("os")
        .and_then(|os| os.get_map())
        .and_then(|os| os.get("version"))
        .and_then(|version| version.get_string());
    assert_eq!(version, Some("13"));
    assert_eq!(parameters.get("arch"), Some(&Variant::String("arm64".to_string())));
    assert_eq!(parameters.len(), 2);
}

#[test]
fn system_parameters_fail_with_the_engine_or_with_a_value() {
    assert_eq!(
        device().query_system_parameters(failed(vec![], 11, "timeout")),
        Err(Error::QueryFailed { code: 11, message: "timeout".to_string() })
    );
    let table = vec![("n".to_string(), RawValue { descriptor: "u".to_string(), payload: Payload::Opaque })];
    assert_eq!(
        device().query_system_parameters(Reply::success(table)),
        Err(Error::UnsupportedVariant("u".to_string()))
    );
}
