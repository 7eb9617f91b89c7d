//! Asset files in the object store.

use vstd::prelude::*;

use vstd::string::*;

verus! {

/// The entity tag reported for an upload: the store's tag, or `unknown`
/// when the store returns none.
pub fn etag_or_unknown(etag: Option<&str>) -> (t: String)
    ensures
        etag matches Some(e) ==> t@ == e@,
        etag is None ==> t@ == "unknown"@,
{
    match etag {
        Some(e) => e.to_owned(),
        None => String::from_str("unknown"),
    }
}

} // verus!
