//! Robot records: applying a partial update.

use vstd::prelude::*;

verus! {

/// A partial update of a robot: each field present replaces the stored one.
#[derive(Debug)]
pub struct UpdateRobotRequest {
    pub name: Option<String>,
    pub model_id: Option<String>,
    pub status: Option<String>,
    pub config: Option<serde_json::Value>,
}

/// The editable fields of a stored robot.
#[derive(Debug)]
pub struct RobotFields {
    pub name: String,
    pub model_id: Option<String>,
    pub status: String,
    pub config: serde_json::Value,
}

impl UpdateRobotRequest {
    /// The robot's fields after the update: given fields replace, absent
    /// fields keep the stored value (a model id cannot be cleared this way).
    pub fn apply(self, existing: RobotFields) -> (r: RobotFields)
        ensures
            r.name == (if self.name is Some {
                self.name->0
            } else {
                existing.name
            }),
            r.model_id == (if self.model_id is Some {
                self.model_id
            } else {
                existing.model_id
            }),
            r.status == (if self.status is Some {
                self.status->0
            } else {
                existing.status
            }),
            r.config == (if self.config is Some {
                self.config->0
            } else {
                existing.config
            }),
    {
        let RobotFields { name, model_id, status, config } = existing;
        RobotFields {
            name: match self.name {
                Some(n) => n,
                None => name,
            },
            model_id: match self.model_id {
                Some(m) => Some(m),
                None => model_id,
            },
            status: match self.status {
                Some(s) => s,
                None => status,
            },
            config: match self.config {
                Some(c) => c,
                None => config,
            },
        }
    }
}

} // verus!
