//! Message envelopes exchanged between the request handler and the watchdog.

use vstd::prelude::*;

verus! {

/// How many messages a channel between the request handler and the watchdog
/// holds. A sender that finds the channel full waits until a message is taken
/// out; no message is dropped to make room.
pub const CHANNEL_CAPACITY: usize = 32;

/// The closed set of message kinds that an envelope can carry.
#[derive(Debug, Clone, Copy, PartialEq, Eq, Structural)]
pub enum MsgType {
    Socket,
    Process,
    GameGuardian,
    GameGuardianGotPid,
    GameGuardianPidLost,
    Frida,
    FridaScript,
    POST,
    GET,
}

/// An envelope pairing a message kind with a payload.
///
/// An envelope is never changed after it is built: it is cloned to be handed
/// on, and a new one is built where another message is meant.
#[derive(Debug, PartialEq, Eq)]
pub struct Pipe<T> {
    pub msg: MsgType,
    pub payload: T,
}

impl<T> Pipe<T> {
    /// Builds the envelope that carries `payload` under the kind `msg`.
    pub fn new(msg: MsgType, payload: T) -> (pipe: Self)
        ensures
            pipe.msg == msg,
            pipe.payload == payload,
    {
        Pipe { msg, payload }
    }
}

impl<T: Clone> Clone for Pipe<T> {
    /// The copy has the same kind, and a payload that is a clone of this one's.
    fn clone(&self) -> (copy: Self)
        ensures
            copy.msg == self.msg,
            cloned(self.payload, copy.payload),
    {
        Pipe { msg: self.msg, payload: self.payload.clone() }
    }
}

} // verus!
