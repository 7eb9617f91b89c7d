//! Map tiles and the roadmap: defaults of new nodes and edges, and the tile
//! endpoint of this phase.

use vstd::prelude::*;

use crate::error::AppError;
use crate::text::str_eq;
use vstd::string::*;

verus! {

/// The type of a roadmap node created without one.
pub fn default_node_type() -> (s: String)
    ensures
        s@ == "waypoint"@,
{
    String::from_str("waypoint")
}

/// The direction of a roadmap edge created without one: both ways.
pub fn default_direction() -> (s: String)
    ensures
        s@ == "bi"@,
{
    String::from_str("bi")
}

/// Whether an edge with this direction can be travelled both ways.
pub fn is_bidirectional(direction: &str) -> (r: bool)
    ensures
        r == (direction@ == "bi"@),
{
    str_eq(direction, "bi")
}

/// The answer to a tile request: point cloud tiles are not served yet, so
/// every tile is reported missing.
pub fn get_tile(map_id: &str, node_id: &str) -> (e: AppError)
    ensures
        e is NotFound,
        e.message() == "Tile "@ + map_id@ + "/"@ + node_id@
            + " not yet available — point cloud tiles are not implemented in Phase 1"@,
{
    let mut m = String::from_str("Tile ");
    m.append(map_id);
    m.append("/");
    m.append(node_id);
    m.append(" not yet available — point cloud tiles are not implemented in Phase 1");
    AppError::NotFound(m)
}

} // verus!
