//! The verified core of a service that attaches to a process on a device,
//! loads a script into it, and watches whether a target application runs.
//!
//! The library makes no call into the instrumentation engine, reads no file
//! and opens no connection. Its caller does, and hands it what came back: the
//! engine's replies, the text of a request, the listing of a directory, the
//! outcome of a lookup in the process table. The library decides what these
//! mean and what is to be done next.
//!
//! - [`variant`] and [`decoder`]: the values of the engine and their decoding.
//! - [`engine`], [`device`], [`session`], [`script`], [`frida`]: the replies of
//!   the engine turned into results, and the states of a session and a script.
//! - [`bindings`]: the way from a device to a loaded script, call by call.
//! - [`gg`]: the watchdog.
//! - [`server`]: what a request asks for and what is answered.
//! - [`config`]: the configuration and the search for the target.
//! - [`define`], [`error`], [`text`]: messages, failures, and helpers on text.

pub mod bindings;
pub mod config;
pub mod decoder;
pub mod define;
pub mod device;
pub mod engine;
pub mod error;
pub mod frida;
pub mod gg;
pub mod script;
pub mod server;
pub mod session;
pub mod text;
pub mod variant;
