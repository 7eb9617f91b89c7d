//! Listing assets: the filter and the SQL statement it becomes.

use vstd::prelude::*;

use crate::text::{decimal_string, decimal_text};
use vstd::string::*;

verus! {

/// Filter criteria for listing assets.
#[derive(Debug, Default)]
pub struct AssetFilter {
    /// Only assets of this type.
    pub asset_type: Option<String>,
    /// Only assets whose name contains this text (case-insensitively).
    pub name_contains: Option<String>,
    /// Only assets carrying every one of these tags.
    pub tags: Option<Vec<String>>,
}

/// An SQL statement with its positional arguments (`$1`, `$2`, ...).
pub struct AssetListQuery {
    pub sql: String,
    pub args: Vec<String>,
}

/// The texts of `tags`, in order.
pub open spec fn tag_texts(tags: Option<Vec<String>>) -> Seq<Seq<char>> {
    match tags {
        Some(v) => v@.map_values(|t: String| t@),
        None => seq![],
    }
}

/// The arguments bound for `filter`: the asset type, then the name pattern,
/// then each tag.
pub open spec fn asset_list_args(filter: AssetFilter) -> Seq<Seq<char>> {
    let a: Seq<Seq<char>> = match filter.asset_type {
        Some(t) => seq![t@],
        None => seq![],
    };
    let b = match filter.name_contains {
        Some(n) => a.push("%"@ + n@ + "%"@),
        None => a,
    };
    b + tag_texts(filter.tags)
}

/// The conditions requiring `count` tags, bound as the arguments numbered
/// from `first` on: each tag must be among the asset's tags.
pub open spec fn tag_conditions(first: nat, count: nat) -> Seq<char>
    decreases count,
{
    if count == 0 {
        Seq::empty()
    } else {
        tag_conditions(first, (count - 1) as nat) + " AND $"@ + decimal_text(
            (first + count - 1) as nat,
        ) + " = ANY(tags)"@
    }
}

/// The statement listing the assets that pass `filter`, newest first.
pub open spec fn asset_list_sql(filter: AssetFilter) -> Seq<char> {
    let base = "SELECT * FROM assets WHERE 1=1"@;
    let with_type = match filter.asset_type {
        Some(_) => base + " AND asset_type = $"@ + decimal_text(1),
        None => base,
    };
    let n: nat = if filter.asset_type is Some { 2 } else { 1 };
    let with_name = match filter.name_contains {
        Some(_) => with_type + " AND name ILIKE $"@ + decimal_text(n),
        None => with_type,
    };
    let m: nat = if filter.name_contains is Some { n + 1 } else { n };
    with_name + tag_conditions(m, tag_texts(filter.tags).len()) + " ORDER BY created_at DESC"@
}

/// Builds the statement and arguments that list the assets passing `filter`:
/// of the given type, with the name pattern in their name, and carrying every
/// given tag.
pub fn list_query(filter: &AssetFilter) -> (q: AssetListQuery)
    ensures
        q.sql@ == asset_list_sql(*filter),
        q.args@.map_values(|a: String| a@) == asset_list_args(*filter),
{
    let mut sql = String::from_str("SELECT * FROM assets WHERE 1=1");
    let mut args: Vec<String> = Vec::new();
    if let Some(asset_type) = &filter.asset_type {
        args.push(asset_type.clone());
        sql.append(" AND asset_type = $");
        let d = decimal_string(args.len() as u64);
        sql.append(d.as_str());
    }
    if let Some(name) = &filter.name_contains {
        let mut pattern = String::from_str("%");
        pattern.append(name.as_str());
        pattern.append("%");
        args.push(pattern);
        sql.append(" AND name ILIKE $");
        let d = decimal_string(args.len() as u64);
        sql.append(d.as_str());
    }
    let ghost before_tags = args@.map_values(|a: String| a@);
    let ghost sql_before_tags = sql@;
    let ghost first: nat = (args@.len() + 1) as nat;
    if let Some(tags) = &filter.tags {
        let mut i: usize = 0;
        while i < tags.len()
            invariant
                i <= tags@.len(),
                first == before_tags.len() + 1,
                args@.map_values(|a: String| a@) == before_tags + tags@.map_values(
                    |t: String| t@,
                ).take(i as int),
                sql@ == sql_before_tags + tag_conditions(first, i as nat),
            decreases tags@.len() - i,
        {
            let t: String = tags[i].as_str().to_owned();
            let ghost old_args = args@;
            args.push(t);
            proof {
                let tv = tags@.map_values(|t: String| t@);
                assert(t@ == tv[i as int]);
                assert(args@.map_values(|a: String| a@) =~= old_args.map_values(|a: String| a@).push(
                    t@,
                ));
                assert(tv.take(i + 1) =~= tv.take(i as int).push(tv[i as int]));
            }
            sql.append(" AND $");
            let d = decimal_string(args.len() as u64);
            sql.append(d.as_str());
            sql.append(" = ANY(tags)");
            assert(args@.map_values(|a: String| a@) =~= before_tags + tags@.map_values(
                |t: String| t@,
            ).take(i + 1));
            i = i + 1;
        }
        assert(tags@.map_values(|t: String| t@).take(tags@.len() as int) =~= tags@.map_values(
            |t: String| t@,
        ));
    }
    sql.append(" ORDER BY created_at DESC");
    assert(args@.map_values(|a: String| a@) =~= asset_list_args(*filter));
    AssetListQuery { sql, args }
}

} // verus!
