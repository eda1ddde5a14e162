//! Helpers for the views of subjects.
use vstd::prelude::*;
use std::collections::HashMap;
use vstd::std_specs::hash::obeys_key_model;
use vstd::std_specs::iter::IteratorSpec;
use crate::text::{join_str, join_strings, texts_of};

verus! {

broadcast use vstd::std_specs::hash::group_hash_axioms;

/// The entries of a map as a list of pairs, in the order the map is walked:
/// each key of the map appears once, with its value. The key type must hash
/// and compare as vstd's model of hash maps takes it to (as the integer
/// types do).
pub fn map_to_vector<K: Copy, V: Copy>(map: &HashMap<K, V>) -> (r: Vec<(K, V)>)
    requires
        obeys_key_model::<K>(),
    ensures
        r@.len() == map@.len(),
        forall|i: int| 0 <= i < r@.len() ==> #[trigger] map@.contains_key(r@[i].0) && map@[r@[i].0] == r@[i].1,
        forall|k: K| #[trigger] map@.contains_key(k) ==> exists|i: int| 0 <= i < r@.len() && r@[i] == (k, map@[k]),
{
    let mut result: Vec<(K, V)> = Vec::with_capacity(map.len());
    let ghost walk = vstd::std_specs::hash::spec_hash_map_iter(map).remaining();
    for (k, v) in it: map.iter()
        invariant
            result@.len() == it.index(),
            it.seq() == walk,
            forall|i: int| 0 <= i < it.index() ==> #[trigger] result@[i] == (*walk[i].0, *walk[i].1),
    {
        result.push((*k, *v));
    }
    proof {
        assert forall|k: K| #[trigger] map@.contains_key(k) implies exists|i: int| 0 <= i < result@.len() && result@[i] == (k, map@[k]) by {
            assert(walk.contains((&k, &map@[k])));
            let j = choose|j: int| 0 <= j < walk.len() && walk[j] == (&k, &map@[k]);
            assert(result@[j] == (k, map@[k]));
        }
    }
    result
}


/// A string map written as `{"key" => "value", ...}` (entries in the order
/// given).
pub open spec fn str_map_text(pairs: Seq<(String, String)>) -> Seq<char> {
    "{"@ + join_str(Seq::new(pairs.len(), |i: int| "\""@ + pairs[i].0@ + "\" => \""@ + pairs[i].1@ + "\""@), ", "@) + "}"@
}

/// Writes the entries of a string map (see `str_map_text`).
pub fn str_map_to_str(pairs: &Vec<(String, String)>) -> (r: String)
    ensures
        r@ == str_map_text(pairs@),
{
    let ghost want = Seq::new(pairs@.len(), |i: int| "\""@ + pairs@[i].0@ + "\" => \""@ + pairs@[i].1@ + "\""@);
    let mut items: Vec<String> = Vec::new();
    let mut i: usize = 0;
    while i < pairs.len()
        invariant
            i <= pairs@.len(),
            want == Seq::new(pairs@.len(), |i: int| "\""@ + pairs@[i].0@ + "\" => \""@ + pairs@[i].1@ + "\""@),
            texts_of(items@) == want.take(i as int),
        decreases pairs.len() - i,
    {
        let mut item = String::from_str("\"");
        item.append(pairs[i].0.as_str());
        item.append("\" => \"");
        item.append(pairs[i].1.as_str());
        item.append("\"");
        let ghost before = texts_of(items@);
        items.push(item);
        proof {
            assert(texts_of(items@) =~= before.push(want[i as int]));
            assert(want.take(i + 1) =~= want.take(i as int).push(want[i as int]));
        }
        i = i + 1;
    }
    assert(want.take(pairs@.len() as int) =~= want);
    let mut r = String::from_str("{");
    let joined = join_strings(&items, ", ");
    r.append(joined.as_str());
    r.append("}");
    r
}

/// A list of string maps written as `[{...}, ...]`.
pub fn str_maps_to_str(maps: &Vec<Vec<(String, String)>>) -> (r: String)
    ensures
        r@ == "["@ + join_str(Seq::new(maps@.len(), |i: int| str_map_text(maps@[i]@)), ", "@) + "]"@,
{
    let ghost want = Seq::new(maps@.len(), |i: int| str_map_text(maps@[i]@));
    let mut items: Vec<String> = Vec::new();
    let mut i: usize = 0;
    while i < maps.len()
        invariant
            i <= maps@.len(),
            want == Seq::new(maps@.len(), |i: int| str_map_text(maps@[i]@)),
            texts_of(items@) == want.take(i as int),
        decreases maps.len() - i,
    {
        let item = str_map_to_str(&maps[i]);
        let ghost before = texts_of(items@);
        items.push(item);
        proof {
            assert(texts_of(items@) =~= before.push(want[i as int]));
            assert(want.take(i + 1) =~= want.take(i as int).push(want[i as int]));
        }
        i = i + 1;
    }
    assert(want.take(maps@.len() as int) =~= want);
    let mut r = String::from_str("[");
    let joined = join_strings(&items, ", ");
    r.append(joined.as_str());
    r.append("]");
    r
}

} // verus!
