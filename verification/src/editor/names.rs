//! Names the editor gives to new and pasted entities.
use vstd::prelude::*;
use crate::text::{decimal, numbered};

verus! {

/// The name of an entity added when the scene lists `count` entities: "Entity_<count>".
pub fn new_entity_name(count: usize) -> (s: String)
    requires
        count <= u64::MAX,
    ensures
        s@ == "Entity_"@ + decimal(count as nat),
{
    numbered("Entity_", count as u64)
}

/// The name of a pasted copy: the source's name (or "Pasted" when it has
/// none) followed by "_copy".
pub fn pasted_name(source: Option<&String>) -> (s: String)
    ensures
        source matches Some(n) ==> s@ == n@ + "_copy"@,
        source is None ==> s@ == "Pasted"@ + "_copy"@,
{
    let mut s = match source {
        Some(n) => n.clone(),
        None => String::from_str("Pasted"),
    };
    s.append("_copy");
    s
}

} // verus!
