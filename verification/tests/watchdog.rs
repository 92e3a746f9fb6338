use frida_gg::define::{MsgType, Pipe};
use frida_gg::gg::{invoke, watchdog, GameGuardian};
use frida_gg::device::Device;
use frida_gg::engine::EngineCall;
use frida_gg::bindings::Stage;

fn fresh() -> GameGuardian {
    GameGuardian::new("com.target.app".to_string(), "/data/data/com.target.app".to_string(), None)
}

fn gained(pid: u32) -> Option<Pipe<Option<u32>>> {
    Some(Pipe { msg: MsgType::GameGuardianGotPid, payload: Some(pid) })
}

fn lost() -> Option<Pipe<Option<u32>>> {
    Some(Pipe { msg: MsgType::GameGuardianPidLost, payload: None })
}

#[test]
fn new_keeps_what_it_is_given() {
    let gg = GameGuardian::new("pkg".to_string(), "/p".to_string(), Some(7));
    assert_eq!(gg.package, "pkg");
    assert_eq!(gg.path, "/p");
    assert_eq!(gg.pid(), Some(7));
}

#[test]
fn same_pid_twice_then_gone() {
    let mut gg = fresh();
    assert_eq!(watchdog(&mut gg, Some(500)), gained(500));
    assert_eq!(gg.pid(), Some(500));
    assert_eq!(watchdog(&mut gg, Some(500)), None);
    assert_eq!(watchdog(&mut gg, None), lost());
    assert_eq!(gg.pid(), None);
}

#[test]
fn repeated_pid_is_announced_once() {
    let mut gg = fresh();
    let mut messages = Vec::new();
    for _ in 0..5 {
        if let Some(message) = watchdog(&mut gg, Some(42)) {
            messages.push(message);
        }
    }
    assert_eq!(messages, vec![Pipe { msg: MsgType::GameGuardianGotPid, payload: Some(42) }]);
}

#[test]
fn repeated_pid_that_was_kept_is_not_announced() {
    let mut gg = GameGuardian::new("pkg".to_string(), "/p".to_string(), Some(42));
    assert_eq!(watchdog(&mut gg, Some(42)), None);
    assert_eq!(watchdog(&mut gg, Some(42)), None);
}

#[test]
fn alternating_outcomes_are_all_announced() {
    let mut gg = fresh();
    let polls = vec![Some(10), None, Some(11), None, Some(10), None];
    let mut messages = Vec::new();
    for poll in polls {
        messages.push(watchdog(&mut gg, poll));
    }
    assert_eq!(messages, vec![gained(10), lost(), gained(11), lost(), gained(10), lost()]);
}

#[test]
fn missing_target_at_the_start_is_no_news() {
    let mut gg = fresh();
    assert_eq!(watchdog(&mut gg, None), None);
    assert_eq!(watchdog(&mut gg, None), None);
    assert_eq!(watchdog(&mut gg, Some(3)), gained(3));
}

#[test]
fn another_pid_is_announced_without_a_loss_between() {
    let mut gg = fresh();
    assert_eq!(watchdog(&mut gg, Some(1)), gained(1));
    assert_eq!(watchdog(&mut gg, Some(2)), gained(2));
    assert_eq!(gg.pid(), Some(2));
}

#[test]
fn watchdog_leaves_package_and_path() {
    let mut gg = fresh();
    let _ = watchdog(&mut gg, Some(9));
    assert_eq!(gg.package, "com.target.app");
    assert_eq!(gg.path, "/data/data/com.target.app");
}

#[test]
fn envelope_clone_is_equal() {
    let pipe = Pipe::new(MsgType::Socket, "1234".to_string());
    let copy = pipe.clone();
    assert_eq!(copy, pipe);
    assert_eq!(copy.msg, MsgType::Socket);
    assert_eq!(copy.payload, "1234");
}

#[test]
fn invoke_begins_with_the_process_list() {
    let device = Device::from_raw(5, b"Local".to_vec(), b"local".to_vec(), 0, 0);
    let (bindings, call) = invoke(&device, 77);
    assert_eq!(call, EngineCall::EnumerateProcesses { device: 5 });
    assert_eq!(bindings.stage(), Stage::Unattached);
    assert_eq!(bindings.source(), "");
}

#[test]
fn watching_another_package_keeps_path_and_pid() {
    let mut gg = GameGuardian::new("a".to_string(), "/p".to_string(), Some(4));
    gg.watch("b".to_string());
    assert_eq!(gg.package, "b");
    assert_eq!(gg.path, "/p");
    assert_eq!(gg.pid(), Some(4));
    assert_eq!(watchdog(&mut gg, Some(4)), None);
    assert_eq!(watchdog(&mut gg, None), lost());
}

#[test]
fn channels_hold_thirty_two_messages() {
    assert_eq!(frida_gg::define::CHANNEL_CAPACITY, 32);
}
