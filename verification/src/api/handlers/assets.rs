//! Robot model assets: the catalogue and where a model's file is stored.

use vstd::prelude::*;

use crate::error::AppError;
use crate::text::{contains_char, contains_str, occurs_in};
use vstd::string::*;

verus! {

/// An entry of the model catalogue.
#[derive(Debug, Clone, PartialEq, Eq)]
pub struct AssetInfo {
    pub id: String,
    pub name: String,
    pub format: String,
}

/// The catalogue entry with the given fields.
pub open spec fn asset_entry(a: AssetInfo, id: Seq<char>, name: Seq<char>, format: Seq<char>) -> bool {
    a.id@ == id && a.name@ == name && a.format@ == format
}

fn asset_info(id: &str, name: &str, format: &str) -> (a: AssetInfo)
    ensures
        asset_entry(a, id@, name@, format@),
{
    AssetInfo { id: id.to_owned(), name: name.to_owned(), format: format.to_owned() }
}

/// The models available: the default AMR, a forklift and a tugbot, all
/// glTF binaries.
pub fn list_assets() -> (v: Vec<AssetInfo>)
    ensures
        v@.len() == 3,
        asset_entry(v@[0], "default-amr"@, "Default AMR"@, "glb"@),
        asset_entry(v@[1], "forklift"@, "Forklift"@, "glb"@),
        asset_entry(v@[2], "tugbot"@, "Tugbot"@, "glb"@),
{
    let mut v = Vec::new();
    v.push(asset_info("default-amr", "Default AMR", "glb"));
    v.push(asset_info("forklift", "Forklift", "glb"));
    v.push(asset_info("tugbot", "Tugbot", "glb"));
    v
}

/// An asset id that could leave the models directory: it contains `..`, `/`
/// or `\`.
pub open spec fn unsafe_asset_id(id: Seq<char>) -> bool {
    occurs_in(id, ".."@) || id.contains('/') || id.contains('\\')
}

/// The path of the model file for asset `id`, refusing ids that could leave
/// the models directory.
pub fn asset_model_path(id: &str) -> (r: Result<String, AppError>)
    ensures
        r is Err <==> unsafe_asset_id(id@),
        r matches Err(e) ==> e is Validation && e.message() == "Invalid asset id"@,
        r matches Ok(p) ==> p@ == "static/models/"@ + id@ + ".glb"@,
{
    if contains_str(id, "..") || contains_char(id, '/') || contains_char(id, '\\') {
        return Err(AppError::Validation(String::from_str("Invalid asset id")));
    }
    let mut p = String::from_str("static/models/");
    p.append(id);
    p.append(".glb");
    Ok(p)
}

/// Whether `c` is an ASCII letter or digit, `-` or `_`.
pub open spec fn is_plain_id_char(c: char) -> bool {
    ||| 'a' <= c && c <= 'z'
    ||| 'A' <= c && c <= 'Z'
    ||| '0' <= c && c <= '9'
    ||| c == '-'
    ||| c == '_'
}

/// An id made only of ASCII letters, digits, `-` and `_` (as every id of the
/// catalogue is) is never refused: its model is served from
/// `static/models/<id>.glb`.
pub proof fn lemma_plain_ids_accepted(id: Seq<char>)
    requires
        forall|i: int| 0 <= i < id.len() ==> is_plain_id_char(#[trigger] id[i]),
    ensures
        !unsafe_asset_id(id),
{
    reveal_strlit("..");
    if id.contains('/') {
        let i = choose|i: int| 0 <= i < id.len() && id[i] == '/';
        assert(is_plain_id_char(id[i]));
    }
    if id.contains('\\') {
        let i = choose|i: int| 0 <= i < id.len() && id[i] == '\\';
        assert(is_plain_id_char(id[i]));
    }
    if occurs_in(id, ".."@) {
        let i = choose|i: int|
            0 <= i && i + ".."@.len() <= id.len() && #[trigger] id.subrange(i, i + ".."@.len())
                == ".."@;
        assert(id.subrange(i, i + 2)[0] == id[i]);
        assert(is_plain_id_char(id[i]));
    }
}

/// Every id of the catalogue is accepted.
pub proof fn lemma_catalogue_ids_accepted()
    ensures
        !unsafe_asset_id("default-amr"@),
        !unsafe_asset_id("forklift"@),
        !unsafe_asset_id("tugbot"@),
{
    reveal_strlit("default-amr");
    reveal_strlit("forklift");
    reveal_strlit("tugbot");
    lemma_plain_ids_accepted("default-amr"@);
    lemma_plain_ids_accepted("forklift"@);
    lemma_plain_ids_accepted("tugbot"@);
}

/// An id holding `/`, `\` or two dots in a row at position `i` is refused.
pub proof fn lemma_traversal_ids_refused(id: Seq<char>, i: int)
    requires
        0 <= i < id.len(),
        id[i] == '/' || id[i] == '\\' || (i + 1 < id.len() && id[i] == '.' && id[i + 1] == '.'),
    ensures
        unsafe_asset_id(id),
{
    reveal_strlit("..");
    if i + 1 < id.len() && id[i] == '.' && id[i + 1] == '.' {
        assert(id.subrange(i, i + ".."@.len()) =~= ".."@);
    }
}

/// The error for a model file that cannot be read.
pub fn asset_not_found(id: &str) -> (e: AppError)
    ensures
        e is NotFound,
        e.message() == "Asset "@ + id@ + " not found"@,
{
    let mut m = String::from_str("Asset ");
    m.append(id);
    m.append(" not found");
    AppError::NotFound(m)
}

} // verus!
