//! Which loaded scripts to reload: those whose file changed after they were loaded.
use vstd::prelude::*;

verus! {

/// A loaded script: its name, when its file was last modified as of loading,
/// and when it was last modified now (if that can be read), both as
/// nanoseconds since the Unix epoch.
#[derive(Debug, Clone)]
pub struct ScriptStamp {
    pub name: String,
    pub loaded_modified: u128,
    pub current_modified: Option<u128>,
}

/// The script's file was modified after the script was loaded.
pub open spec fn is_stale(s: ScriptStamp) -> bool {
    match s.current_modified {
        Some(t) => t > s.loaded_modified,
        None => false,
    }
}

/// The names of the stale scripts among the first `upto`, in order.
pub open spec fn stale_names(stamps: Seq<ScriptStamp>, upto: int) -> Seq<Seq<char>>
    decreases upto,
{
    if upto <= 0 {
        Seq::empty()
    } else if is_stale(stamps[upto - 1]) {
        stale_names(stamps, upto - 1).push(stamps[upto - 1].name@)
    } else {
        stale_names(stamps, upto - 1)
    }
}

/// The names of the scripts to reload, in the order given.
pub fn scripts_to_reload(stamps: &Vec<ScriptStamp>) -> (names: Vec<String>)
    ensures
        names@.map_values(|s: String| s@) == stale_names(stamps@, stamps@.len() as int),
{
    let mut names: Vec<String> = Vec::new();
    let mut i: usize = 0;
    while i < stamps.len()
        invariant
            0 <= i <= stamps.len(),
            names@.map_values(|s: String| s@) == stale_names(stamps@, i as int),
        decreases stamps.len() - i,
    {
        let s = &stamps[i];
        let stale = match s.current_modified {
            Some(t) => t > s.loaded_modified,
            None => false,
        };
        if stale {
            let ghost before = names@;
            names.push(s.name.clone());
            assert(names@.map_values(|s: String| s@) =~= before.map_values(|s: String| s@).push(s.name@));
        }
        i = i + 1;
    }
    names
}

/// Among the first `upto` scripts, one named `name` has a known current
/// modification time later than the one it was loaded with.
pub open spec fn changed_script_named(stamps: Seq<ScriptStamp>, upto: int, name: Seq<char>) -> bool {
    exists|i: int| 0 <= i < upto && (#[trigger] stamps[i]).current_modified is Some
        && stamps[i].current_modified->0 > stamps[i].loaded_modified && stamps[i].name@ == name
}

/// A script is reloaded exactly when its file's current modification time
/// is known and later than the one it was loaded with: every such script's
/// name is listed, and every listed name belongs to such a script.
pub proof fn law_reload_exactly_stale(stamps: Seq<ScriptStamp>, upto: int)
    requires
        0 <= upto <= stamps.len(),
    ensures
        forall|i: int| 0 <= i < upto && (#[trigger] stamps[i]).current_modified is Some
            && stamps[i].current_modified->0 > stamps[i].loaded_modified
            ==> stale_names(stamps, upto).contains(stamps[i].name@),
        forall|k: int| 0 <= k < stale_names(stamps, upto).len()
            ==> changed_script_named(stamps, upto, #[trigger] stale_names(stamps, upto)[k]),
    decreases upto,
{
    if upto > 0 {
        law_reload_exactly_stale(stamps, upto - 1);
        let prev = stale_names(stamps, upto - 1);
        let cur = stale_names(stamps, upto);
        assert forall|i: int| 0 <= i < upto && (#[trigger] stamps[i]).current_modified is Some
            && stamps[i].current_modified->0 > stamps[i].loaded_modified
            implies cur.contains(stamps[i].name@) by {
            if i < upto - 1 {
                if is_stale(stamps[upto - 1]) {
                    crate::lists::lemma_contains_push(prev, stamps[upto - 1].name@, stamps[i].name@);
                }
            } else {
                crate::lists::lemma_contains_push(prev, stamps[i].name@, stamps[i].name@);
            }
        }
        assert forall|k: int| 0 <= k < cur.len() implies changed_script_named(stamps, upto, #[trigger] cur[k]) by {
            if k < prev.len() {
                assert(cur[k] == prev[k]);
                assert(changed_script_named(stamps, upto - 1, prev[k]));
                let i = choose|i: int| 0 <= i < upto - 1 && (#[trigger] stamps[i]).current_modified is Some
                    && stamps[i].current_modified->0 > stamps[i].loaded_modified && stamps[i].name@ == prev[k];
                assert(0 <= i < upto);
            } else {
                let i = upto - 1;
                assert(is_stale(stamps[i])) by {
                    if !is_stale(stamps[i]) {
                        assert(cur == prev);
                    }
                }
                assert(cur[k] == stamps[i].name@);
                assert(stamps[i].current_modified is Some && stamps[i].current_modified->0 > stamps[i].loaded_modified);
            }
        }
    }
}

} // verus!
