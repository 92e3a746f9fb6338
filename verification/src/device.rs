//! A device and the operations on the processes that run on it.

use vstd::prelude::*;
use crate::decoder::{decode_entries_spec, sv_array_to_map, RawValue, MAX_DEPTH};
use crate::engine::{fault_failure, str_from_utf8, text_or_empty, Operation, Reply};
use crate::error::{fails_with, Error, Failure};
use crate::session::{Session, SessionState};
use crate::text::{is_nul_free, nul_free};
use crate::variant::{Dict, Value};

verus! {

/// Access to a device: the engine's handle for it and what the engine says of
/// it, as the engine gave it.
#[derive(Debug)]
pub struct Device {
    handle: u64,
    name: Vec<u8>,
    id: Vec<u8>,
    kind: u32,
    lost: i32,
}

/// What a [`Device`] holds, as plain values.
pub struct DeviceState {
    pub handle: u64,
    pub name: Seq<u8>,
    pub id: Seq<u8>,
    pub kind: u32,
    pub lost: i32,
}

impl View for Device {
    type V = DeviceState;

    closed spec fn view(&self) -> DeviceState {
        DeviceState {
            handle: self.handle,
            name: self.name@,
            id: self.id@,
            kind: self.kind,
            lost: self.lost,
        }
    }
}

/// Device type.
///
/// Represents different connection types
#[derive(Debug, Clone, Copy, Hash, PartialEq, Eq, Structural)]
pub enum DeviceType {
    /// Local device.
    Local,
    /// Remote device, connected via network
    Remote,
    /// Device connected via USB
    USB,
}

/// The type that the engine's number `code` stands for. A number that stands
/// for none is taken as a remote device.
pub open spec fn device_type_of(code: u32) -> DeviceType {
    if code == 0 {
        DeviceType::Local
    } else if code == 2 {
        DeviceType::USB
    } else {
        DeviceType::Remote
    }
}

impl DeviceType {
    /// The engine's number for the type.
    pub fn code(self) -> (code: u32)
        ensures
            code <= 2,
            device_type_of(code) == self,
    {
        match self {
            DeviceType::Local => 0,
            DeviceType::Remote => 1,
            DeviceType::USB => 2,
        }
    }

    /// The type that the engine's number stands for.
    pub fn from_code(code: u32) -> (kind: DeviceType)
        requires
            code <= 2,
        ensures
            kind == device_type_of(code),
    {
        if code == 0 {
            DeviceType::Local
        } else if code == 1 {
            DeviceType::Remote
        } else {
            DeviceType::USB
        }
    }

    /// The name of the type.
    pub fn name(self) -> (name: &'static str)
        ensures
            name@ == match self {
                DeviceType::Local => "Local"@,
                DeviceType::Remote => "Remote"@,
                DeviceType::USB => "USB"@,
            },
    {
        match self {
            DeviceType::Local => "Local",
            DeviceType::Remote => "Remote",
            DeviceType::USB => "USB",
        }
    }
}

/// A process that runs on a device.
#[derive(Debug, PartialEq, Eq)]
pub struct Process {
    pub pid: u32,
    pub name: String,
}

/// The name of the first process of `processes` that has the pid `pid`, or the
/// empty text where none has it.
pub open spec fn name_of_pid(processes: Seq<Process>, pid: u32) -> Seq<char>
    decreases processes.len(),
{
    if processes.len() == 0 {
        Seq::empty()
    } else if processes[0].pid == pid {
        processes[0].name@
    } else {
        name_of_pid(processes.drop_first(), pid)
    }
}

/// The name of the first process of `processes` that has the pid `pid`, or the
/// empty text where none has it.
pub fn find_process_name(processes: &Vec<Process>, pid: u32) -> (name: String)
    ensures
        name@ == name_of_pid(processes@, pid),
{
    let mut i: usize = 0;
    proof {
        assert(processes@.skip(0) =~= processes@);
    }
    while i < processes.len()
        invariant
            i <= processes@.len(),
            name_of_pid(processes@, pid) == name_of_pid(processes@.skip(i as int), pid),
        decreases processes@.len() - i,
    {
        proof {
            assert(processes@.skip(i as int).drop_first() =~= processes@.skip(i + 1));
        }
        if processes[i].pid == pid {
            return processes[i].name.clone();
        }
        i += 1;
    }
    String::new()
}

impl Device {
    /// The device that the engine knows under `handle`, with the name, the id,
    /// the number of its type and the lost flag that the engine gave for it.
    pub fn from_raw(handle: u64, name: Vec<u8>, id: Vec<u8>, kind: u32, lost: i32) -> (device: Device)
        ensures
            device@ == (DeviceState { handle, name: name@, id: id@, kind, lost }),
    {
        Device { handle, name, id, kind, lost }
    }

    /// The device that the engine's reply to the call that looks it up stands
    /// for. The reply's value is the handle of the device; the name, the id,
    /// the number of the type and the lost flag are what the engine gave for
    /// it. A fault of the engine gives `DeviceLookupFailed`.
    pub fn from_reply(reply: Reply<u64>, name: Vec<u8>, id: Vec<u8>, kind: u32, lost: i32) -> (result:
        Result<Device, Error>)
        ensures
            match reply.error {
                Some(_) => fails_with(result, Failure::DeviceLookupFailed),
                None => result matches Ok(device) && device@ == (DeviceState {
                    handle: reply.value,
                    name: name@,
                    id: id@,
                    kind,
                    lost,
                }),
            },
    {
        match reply.error {
            Some(_) => Err(Error::DeviceLookupFailed),
            None => Ok(Device::from_raw(reply.value, name, id, kind, lost)),
        }
    }

    /// The engine's handle for the device.
    pub fn handle(&self) -> (handle: u64)
        ensures
            handle == self@.handle,
    {
        self.handle
    }

    /// Returns the device's name, or the empty text where the engine's bytes
    /// are not UTF-8.
    pub fn get_name(&self) -> (name: &str)
        ensures
            name@ == text_or_empty(self@.name),
    {
        match str_from_utf8(self.name.as_slice()) {
            Some(text) => text,
            None => {
                proof {
                    reveal_strlit("");
                }
                ""
            },
        }
    }

    /// Returns the device's id, or the empty text where the engine's bytes are
    /// not UTF-8.
    pub fn get_id(&self) -> (id: &str)
        ensures
            id@ == text_or_empty(self@.id),
    {
        match str_from_utf8(self.id.as_slice()) {
            Some(text) => text,
            None => {
                proof {
                    reveal_strlit("");
                }
                ""
            },
        }
    }

    /// Returns the device's type
    pub fn get_type(&self) -> (kind: DeviceType)
        ensures
            kind == device_type_of(self@.kind),
    {
        if self.kind == 0 {
            DeviceType::Local
        } else if self.kind == 2 {
            DeviceType::USB
        } else {
            DeviceType::Remote
        }
    }

    /// Returns if the device is lost or not.
    pub fn is_lost(&self) -> (lost: bool)
        ensures
            lost == (self@.lost == 1),
    {
        self.lost == 1
    }

    /// Returns the device's system parameters, from the engine's reply to the
    /// query for them: each entry of the table that the engine handed out,
    /// decoded, under its key.
    ///
    /// A fault of the engine gives `QueryFailed` with its code and message. An
    /// entry that cannot be decoded gives the failure of its decoding.
    pub fn query_system_parameters(&self, reply: Reply<Vec<(String, RawValue)>>) -> (result: Result<
        Dict,
        Error,
    >)
        ensures
            match reply.error {
                Some(fault) => fails_with(result, fault_failure(
                    Operation::Query,
                    fault,
                )),
                None => match result {
                    Ok(parameters) => decode_entries_spec(reply.value@, MAX_DEPTH as nat) == Ok::<
                        _,
                        Failure,
                    >(parameters@),
                    Err(error) => decode_entries_spec(reply.value@, MAX_DEPTH as nat) == Err::<
                        Map<Seq<char>, Value>,
                        _,
                    >(error@),
                },
            },
    {
        match reply.error {
            Some(fault) => Err(fault.into_error(Operation::Query)),
            None => sv_array_to_map(&reply.value, MAX_DEPTH),
        }
    }

    /// Returns all processes, from the engine's reply to the call that lists
    /// them.
    pub fn enumerate_processes(&self, reply: Reply<Vec<Process>>) -> (result: Result<
        Vec<Process>,
        Error,
    >)
        ensures
            match reply.error {
                Some(_) => fails_with(result, Failure::ProcessesEnumerationFailed),
                None => result == Ok::<_, Error>(reply.value),
            },
    {
        match reply.error {
            Some(_) => Err(Error::ProcessesEnumerationFailed),
            None => Ok(reply.value),
        }
    }

    /// Creates the [`Session`] that the engine's reply to the call to attach to
    /// `pid` stands for. The reply's value is the handle of the session. The
    /// session is attached.
    ///
    /// A fault of the engine gives `AttachFailed` with its code and message.
    pub fn attach(&self, pid: u32, reply: Reply<u64>) -> (result: Result<Session, Error>)
        ensures
            match reply.error {
                Some(fault) => fails_with(result, fault_failure(
                    Operation::Attach,
                    fault,
                )),
                None => result matches Ok(session) && session@ == (SessionState {
                    handle: reply.value,
                    pid,
                    detached: false,
                }),
            },
    {
        match reply.error {
            Some(fault) => Err(fault.into_error(Operation::Attach)),
            None => Ok(Session::from_raw(reply.value, pid)),
        }
    }

    /// The pid of the process that the engine started for `program`, from its
    /// reply to the call that spawns it. The process is halted until it is
    /// resumed.
    ///
    /// A program with a NUL character in it gives `EncodingError`, whatever
    /// the reply holds: such a text cannot be handed to the engine. A fault of
    /// the engine gives `SpawnFailed` with its code and message.
    pub fn spawn(&mut self, program: &str, reply: Reply<u32>) -> (result: Result<u32, Error>)
        ensures
            final(self)@ == old(self)@,
            !nul_free(program@) ==> fails_with(result, Failure::EncodingError),
            nul_free(program@) ==> match reply.error {
                Some(fault) => fails_with(result, fault_failure(
                    Operation::Spawn,
                    fault,
                )),
                None => result == Ok::<_, Error>(reply.value),
            },
    {
        if !is_nul_free(program) {
            return Err(Error::EncodingError);
        }
        match reply.error {
            Some(fault) => Err(fault.into_error(Operation::Spawn)),
            None => Ok(reply.value),
        }
    }

    /// Says how the call that resumes the process `pid` ended, from the
    /// engine's reply to it.
    pub fn resume(&self, pid: u32, reply: Reply<()>) -> (result: Result<(), Error>)
        ensures
            match reply.error {
                Some(fault) => fails_with(result, fault_failure(
                    Operation::Resume,
                    fault,
                )),
                None => result is Ok,
            },
    {
        match reply.error {
            Some(fault) => Err(fault.into_error(Operation::Resume)),
            None => Ok(()),
        }
    }

    /// Says how the call that kills the process `pid` ended, from the engine's
    /// reply to it.
    pub fn kill(&mut self, pid: u32, reply: Reply<()>) -> (result: Result<(), Error>)
        ensures
            final(self)@ == old(self)@,
            match reply.error {
                Some(fault) => fails_with(result, fault_failure(
                    Operation::Kill,
                    fault,
                )),
                None => result is Ok,
            },
    {
        match reply.error {
            Some(fault) => Err(fault.into_error(Operation::Kill)),
            None => Ok(()),
        }
    }
}

} // verus!
