//! A command as the host describes it: SQL text, named parameters and a kind.

use vstd::prelude::*;
use crate::value::JsonValue;

verus! {

/// One named parameter of a command.
#[derive(Debug)]
pub struct SerializedParam {
    /// The name, with or without its leading marker.
    pub name: String,
    pub value: JsonValue,
    /// The type hint, if the host gave one.
    pub param_type: Option<String>,
    /// Whether the server sets the parameter. With a value that is not null it
    /// is both set by the host and read back.
    pub output: bool,
}

/// A command: SQL text, its parameters in declaration order, and its kind.
#[derive(Debug)]
pub struct SerializedCommand {
    pub sql: String,
    pub params: Vec<SerializedParam>,
    pub transaction_id: Option<String>,
    pub command_timeout_ms: Option<u64>,
    pub command_type: String,
    pub stream_mode: Option<String>,
    pub fetch_size: Option<u32>,
}

} // verus!
