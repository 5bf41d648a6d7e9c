//! Access modes of large-object streams.

use vstd::prelude::*;
use crate::error::{prefixed, ErrorKind, MssqlError};
use crate::text::str_eq;

verus! {

/// How a large-object stream is opened.
#[derive(Clone, Copy, Debug, PartialEq, Eq, Structural)]
pub enum FilestreamMode {
    Read,
    Write,
    ReadWrite,
}

/// The mode that a name denotes, if it denotes one.
pub open spec fn mode_named(name: Seq<char>) -> Option<FilestreamMode> {
    if name == "read"@ {
        Some(FilestreamMode::Read)
    } else if name == "write"@ {
        Some(FilestreamMode::Write)
    } else if name == "readwrite"@ {
        Some(FilestreamMode::ReadWrite)
    } else {
        None
    }
}

impl FilestreamMode {
    /// The access code that the platform expects for the mode.
    pub open spec fn spec_access_code(self) -> u32 {
        match self {
            FilestreamMode::Read => 0,
            FilestreamMode::Write => 1,
            FilestreamMode::ReadWrite => 2,
        }
    }

    /// The access code that the platform expects for the mode.
    pub fn access_code(self) -> (code: u32)
        ensures
            code == self.spec_access_code(),
    {
        match self {
            FilestreamMode::Read => 0,
            FilestreamMode::Write => 1,
            FilestreamMode::ReadWrite => 2,
        }
    }

    /// Reads a mode from its name: `read`, `write` or `readwrite`. Any other
    /// name is a configuration error that quotes it.
    pub fn parse(name: &str) -> (r: Result<FilestreamMode, MssqlError>)
        ensures
            match r {
                Ok(m) => mode_named(name@) == Some(m),
                Err(e) => mode_named(name@) is None && e.is(
                    ErrorKind::Config,
                    "Invalid mode: "@ + name@,
                ),
            },
    {
        if str_eq(name, "read") {
            Ok(FilestreamMode::Read)
        } else if str_eq(name, "write") {
            Ok(FilestreamMode::Write)
        } else if str_eq(name, "readwrite") {
            Ok(FilestreamMode::ReadWrite)
        } else {
            Err(MssqlError::Config(prefixed("Invalid mode: ", name)))
        }
    }
}

} // verus!
