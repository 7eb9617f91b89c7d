//! Telemetry forwarded to WebSocket clients.

use vstd::prelude::*;

use vstd::string::*;

verus! {

/// The WebSocket topic carrying the telemetry of robot `robot_id`.
pub fn telemetry_topic(robot_id: &str) -> (t: String)
    ensures
        t@ == "telemetry:"@ + robot_id@,
{
    let mut t = String::from_str("telemetry:");
    t.append(robot_id);
    t
}

} // verus!
