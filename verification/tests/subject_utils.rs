use gnos::subject_utils::{map_to_vector, str_map_to_str, str_maps_to_str};
use std::collections::HashMap;

#[test]
fn map_entries_as_pairs() {
    let mut map: HashMap<u64, i32> = HashMap::new();
    map.insert(1, -1);
    map.insert(7, 70);
    map.insert(3, 30);
    let mut pairs = map_to_vector(&map);
    pairs.sort();
    assert_eq!(pairs, vec![(1, -1), (3, 30), (7, 70)]);
    let empty: HashMap<u64, i32> = HashMap::new();
    assert!(map_to_vector(&empty).is_empty());
}

#[test]
fn string_maps_as_text() {
    let m = vec![(String::from("url"), String::from("/subject/a")), (String::from("text"), String::from("a"))];
    assert_eq!(str_map_to_str(&m), "{\"url\" => \"/subject/a\", \"text\" => \"a\"}");
    assert_eq!(str_map_to_str(&vec![]), "{}");
    assert_eq!(str_maps_to_str(&vec![m.clone(), vec![]]), "[{\"url\" => \"/subject/a\", \"text\" => \"a\"}, {}]");
    assert_eq!(str_maps_to_str(&vec![]), "[]");
}
