use frida_gg::error::Error;

#[test]
fn failures_are_described() {
    let m = || "msg".to_string();
    assert_eq!(Error::EncodingError.describe(), "Text conversion failed");
    assert_eq!(Error::DeviceLookupFailed.describe(), "Failed to find the device");
    assert_eq!(Error::AttachFailed { code: 1, message: m() }.describe(), "Failed to attach (1) msg");
    assert_eq!(Error::SpawnFailed { code: -2, message: m() }.describe(), "Failed to spawn program (-2) msg");
    assert_eq!(Error::ResumeFailed { code: 3, message: m() }.describe(), "Failed to resume (3) msg");
    assert_eq!(Error::KillFailed { code: 40, message: m() }.describe(), "Failed to kill PID (40) msg");
    assert_eq!(
        Error::DetachFailed { code: 0, message: String::new() }.describe(),
        "Failed to detach the current session (0) "
    );
    assert_eq!(
        Error::QueryFailed { code: i32::MIN, message: m() }.describe(),
        "Failed to query device parameters (-2147483648) msg"
    );
    assert_eq!(Error::ProcessesEnumerationFailed.describe(), "Failed to enumerate processes");
    assert_eq!(Error::ScriptCreationFailed.describe(), "Failed to create the script");
    assert_eq!(Error::LoadFailed.describe(), "Failed to load the script");
    assert_eq!(Error::UnloadFailed.describe(), "Failed to unload the script");
    assert_eq!(Error::SessionDetached.describe(), "The session is detached");
    assert_eq!(Error::ScriptStateInvalid.describe(), "The script is not in the state for this");
    assert_eq!(Error::HandlerAlreadyRegistered.describe(), "The script has a message handler already");
    assert_eq!(Error::UnsupportedVariant("ay".to_string()).describe(), "Unsupported variant: ay");
    assert_eq!(Error::MalformedVariant("s".to_string()).describe(), "Malformed variant: s");
    assert_eq!(Error::NestingTooDeep.describe(), "The value is nested too deep");
    assert_eq!(Error::ConfigurationUnavailable.describe(), "No target is configured and none was found");
    assert_eq!(Error::UnexpectedReply.describe(), "The answer belongs to no call that was asked for");
}
