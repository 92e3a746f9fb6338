//! The engine's runtime.

use vstd::prelude::*;
use crate::engine::{str_from_utf8, text_or_empty};

verus! {

/// Context required for instantiation of all structures of the engine: what is
/// known of the engine once it is initialised.
#[derive(Debug)]
pub struct Frida {
    version: Vec<u8>,
}

impl Frida {
    /// The context of the engine that gave `version` as its version, in the
    /// bytes of a C string.
    pub fn from_raw(version: Vec<u8>) -> (frida: Frida)
        ensures
            frida.version_bytes() == version@,
    {
        Frida { version }
    }

    /// The bytes that the engine gave as its version.
    pub closed spec fn version_bytes(&self) -> Seq<u8> {
        self.version@
    }

    /// Gets the current version of the engine, or the empty text where the
    /// engine's bytes are not UTF-8.
    pub fn version(&self) -> (version: &str)
        ensures
            version@ == text_or_empty(self.version_bytes()),
    {
        match str_from_utf8(self.version.as_slice()) {
            Some(text) => text,
            None => {
                proof {
                    reveal_strlit("");
                }
                ""
            },
        }
    }
}

} // verus!
