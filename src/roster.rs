//! The roster of an event: per-event participant id to display name and
//! global id.

use vstd::prelude::*;
use std::collections::HashMap;
use vstd::std_specs::iter::IteratorSpec;

verus! {

broadcast use vstd::std_specs::hash::group_hash_axioms;

/// Some participant of the roster has this global id.
pub open spec fn roster_has_player(roster: Map<i32, (String, i32)>, global_id: i32) -> bool {
    exists|k: i32| roster.contains_key(k) && #[trigger] roster[k].1 == global_id
}

/// The global ids of everyone on the roster.
pub fn roster_global_ids(roster: &HashMap<i32, (String, i32)>) -> (ids: Vec<i32>)
    ensures
        forall|g: i32| #[trigger] ids@.contains(g) <==> roster_has_player(roster@, g),
{
    let mut ids: Vec<i32> = Vec::new();
    let values = roster.values();
    let ghost all = values.remaining();
    for v in it: values
        invariant
            it.seq() == all,
            ids@.len() == it.index(),
            forall|j: int| 0 <= j < it.index() ==> ids@[j] == (*it.seq()[j]).1,
    {
        ids.push(v.1);
    }
    proof {
        let vals = all.unref();
        assert(vals.to_set() == roster@.values());
        assert forall|g: i32| #[trigger] ids@.contains(g) <==> roster_has_player(roster@, g) by {
            if ids@.contains(g) {
                let j = choose|j: int| 0 <= j < ids@.len() && ids@[j] == g;
                assert(vals[j] == *all[j]);
                assert(vals.to_set().contains(vals[j]));
                assert(roster@.values().contains(vals[j]));
                let k = choose|k: i32| roster@.contains_key(k) && roster@[k] == vals[j];
                assert(roster@[k].1 == g);
            }
            if roster_has_player(roster@, g) {
                let k = choose|k: i32| roster@.contains_key(k) && #[trigger] roster@[k].1 == g;
                assert(roster@.values().contains(roster@[k]));
                assert(vals.to_set().contains(roster@[k]));
                let j = choose|j: int| 0 <= j < vals.len() && vals[j] == roster@[k];
                assert(ids@[j] == g);
            }
        }
    }
    ids
}

/// Whether `ids` holds `g`.
pub fn holds_id(ids: &Vec<i32>, g: i32) -> (r: bool)
    ensures
        r == ids@.contains(g),
{
    let n = ids.len();
    for i in 0..n
        invariant
            n == ids@.len(),
            forall|j: int| 0 <= j < i ==> ids@[j] != g,
    {
        if ids[i] == g {
            return true;
        }
    }
    false
}

} // verus!
