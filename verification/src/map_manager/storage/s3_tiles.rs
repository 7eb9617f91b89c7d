//! Where Potree tiles are stored in the object store.
//!
//! Tiles are stored at `tiles/{map_id}/{node_name}`; all tiles of a map share
//! the prefix `tiles/{map_id}/`.

use vstd::prelude::*;

use crate::text::{uuid_string, uuid_text};
use vstd::string::*;

verus! {

/// The key prefix under which the tiles of map `map_id` are stored.
pub open spec fn tiles_prefix_text(map_id: u128) -> Seq<char> {
    "tiles/"@ + uuid_text(map_id) + "/"@
}

/// The key prefix under which the tiles of map `map_id` are stored.
pub fn tiles_prefix(map_id: u128) -> (p: String)
    ensures
        p@ == tiles_prefix_text(map_id),
{
    let mut p = String::from_str("tiles/");
    let id = uuid_string(map_id);
    p.append(id.as_str());
    p.append("/");
    p
}

/// The key of the tile `node_name` of map `map_id`.
pub fn tile_key(map_id: u128, node_name: &str) -> (k: String)
    ensures
        k@ == tiles_prefix_text(map_id) + node_name@,
{
    let mut k = tiles_prefix(map_id);
    k.append(node_name);
    k
}

} // verus!
