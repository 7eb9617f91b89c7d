//! Map records: applying a partial update.

use vstd::prelude::*;

verus! {

/// A partial update of a map: each field present replaces the stored one.
#[derive(Debug)]
pub struct UpdateMapRequest {
    pub name: Option<String>,
    pub version: Option<i32>,
    pub metadata: Option<serde_json::Value>,
}

/// The editable fields of a stored map.
#[derive(Debug)]
pub struct MapFields {
    pub name: String,
    pub version: i32,
    pub metadata: serde_json::Value,
}

impl UpdateMapRequest {
    /// The map's fields after the update: given fields replace, absent fields
    /// keep the stored value.
    pub fn apply(self, existing: MapFields) -> (m: MapFields)
        ensures
            m.name == (if self.name is Some {
                self.name->0
            } else {
                existing.name
            }),
            m.version == (if self.version is Some {
                self.version->0
            } else {
                existing.version
            }),
            m.metadata == (if self.metadata is Some {
                self.metadata->0
            } else {
                existing.metadata
            }),
    {
        let MapFields { name, version, metadata } = existing;
        MapFields {
            name: match self.name {
                Some(n) => n,
                None => name,
            },
            version: match self.version {
                Some(v) => v,
                None => version,
            },
            metadata: match self.metadata {
                Some(m) => m,
                None => metadata,
            },
        }
    }
}

} // verus!
