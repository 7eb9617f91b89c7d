//! Client of the Simulation Engine.
//!
//! The engine exposes two TCP ports: a telemetry port (default 50051) that
//! streams newline-delimited JSON telemetry, and a command port (default
//! 50052) that accepts newline-delimited JSON commands.

use vstd::prelude::*;

use crate::text::{trim, trim_text};

verus! {

/// Client for communicating with the Sim Engine over TCP.
#[derive(Debug, Clone)]
pub struct SimEngineClient {
    telemetry_addr: String,
    command_addr: String,
}

impl SimEngineClient {
    /// The address of the telemetry port.
    pub closed spec fn telemetry_address(&self) -> Seq<char> {
        self.telemetry_addr@
    }

    /// The address of the command port.
    pub closed spec fn command_address(&self) -> Seq<char> {
        self.command_addr@
    }

    /// Create a new SimEngineClient with the given telemetry and command addresses.
    pub fn new(telemetry_addr: String, command_addr: String) -> (c: Self)
        ensures
            c.telemetry_address() == telemetry_addr@,
            c.command_address() == command_addr@,
    {
        Self { telemetry_addr, command_addr }
    }

    /// The address of the telemetry port.
    pub fn telemetry_addr(&self) -> (a: &str)
        ensures
            a@ == self.telemetry_address(),
    {
        self.telemetry_addr.as_str()
    }

    /// The address of the command port.
    pub fn command_addr(&self) -> (a: &str)
        ensures
            a@ == self.command_address(),
    {
        self.command_addr.as_str()
    }
}

/// The telemetry message carried by one line of the telemetry stream: the
/// line without surrounding white space, or nothing for a blank line.
pub fn telemetry_line(line: &str) -> (r: Option<String>)
    ensures
        r is None <==> trim_text(line@).len() == 0,
        r matches Some(t) ==> t@ == trim_text(line@),
{
    let t = trim(line);
    if t.as_str().unicode_len() == 0 {
        None
    } else {
        Some(t)
    }
}

/// A serialized command framed for the command port: followed by a newline.
pub fn frame_command(payload: Vec<u8>) -> (r: Vec<u8>)
    ensures
        r@ == payload@.push(10u8),
{
    let mut p = payload;
    p.push(10u8);
    p
}

} // verus!
