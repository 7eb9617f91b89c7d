//! Forwarding commands to the simulation engine.

use vstd::prelude::*;

use crate::error::AppError;
use vstd::string::*;

verus! {

/// The answer to a forwarded command.
#[derive(Debug, Clone)]
pub struct CommandResponse {
    pub status: String,
}

impl CommandResponse {
    /// The answer once the command was handed to the engine.
    pub fn sent() -> (r: CommandResponse)
        ensures
            r.status@ == "sent"@,
    {
        CommandResponse { status: String::from_str("sent") }
    }
}

/// The error for a command the engine could not be sent; `detail` describes
/// the failure.
pub fn command_failed(detail: &str) -> (e: AppError)
    ensures
        e is Internal,
        e.message() == "Failed to send command to sim engine: "@ + detail@,
{
    let mut m = String::from_str("Failed to send command to sim engine: ");
    m.append(detail);
    AppError::Internal(m)
}

} // verus!
