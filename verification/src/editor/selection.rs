//! Keeping the editor's selection valid.
use vstd::prelude::*;

verus! {

/// The selection that stands after a check: a selected entity that is not
/// among `present` (the entities with a transform, a sprite or physics) is
/// deselected.
pub open spec fn spec_valid_selection(selected: Option<u64>, present: Seq<u64>) -> Option<u64> {
    match selected {
        Some(e) => if present.contains(e) { Some(e) } else { None },
        None => None,
    }
}

fn is_present(present: &Vec<u64>, e: u64) -> (r: bool)
    ensures
        r == present@.contains(e),
{
    let mut i: usize = 0;
    while i < present.len()
        invariant
            0 <= i <= present.len(),
            forall|j: int| 0 <= j < i ==> present@[j] != e,
        decreases present.len() - i,
    {
        if present[i] == e {
            assert(present@[i as int] == e);
            return true;
        }
        i = i + 1;
    }
    false
}

/// Clear the selection when the selected entity is gone.
pub fn valid_selection(selected: Option<u64>, present: &Vec<u64>) -> (r: Option<u64>)
    ensures
        r == spec_valid_selection(selected, present@),
{
    match selected {
        Some(e) => if is_present(present, e) { Some(e) } else { None },
        None => None,
    }
}

} // verus!
