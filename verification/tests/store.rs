use alpha_core::store::{IdMap, PairMap, PairSet};

#[test]
fn id_map_insert_get_and_contains() {
    let mut map: IdMap<u32> = IdMap::new();
    assert!(!map.contains_key(1));
    assert!(map.get(1).is_none());
    map.insert(1, 10);
    map.insert(2, 20);
    assert!(map.contains_key(1));
    assert_eq!(map.get(1), Some(&10));
    assert_eq!(map.get(2), Some(&20));
    map.insert(1, 11);
    assert_eq!(map.get(1), Some(&11));
}

#[test]
fn id_map_replace_hands_back_the_old_record() {
    let mut map: IdMap<u32> = IdMap::new();
    map.insert(5, 50);
    let old = map.replace(5, 51);
    assert_eq!(old, 50);
    assert_eq!(map.get(5), Some(&51));
}

#[test]
fn id_map_remove_hands_back_the_record() {
    let mut map: IdMap<u32> = IdMap::new();
    map.insert(1, 10);
    map.insert(2, 20);
    assert_eq!(map.remove(1), Some(10));
    assert!(!map.contains_key(1));
    assert_eq!(map.get(2), Some(&20));
    assert_eq!(map.remove(1), None);
}

#[test]
fn pair_map_keys_are_composite() {
    let mut map: PairMap<u32> = PairMap::new();
    map.insert_new(1, 2, 12);
    map.insert_new(2, 1, 21);
    assert!(map.contains_key(1, 2));
    assert!(!map.contains_key(2, 2));
    assert_eq!(map.get(1, 2), Some(&12));
    assert_eq!(map.get(2, 1), Some(&21));
}

#[test]
fn pair_set_membership() {
    let mut set = PairSet::new();
    assert!(!set.contains(1, 2));
    set.insert(1, 2);
    assert!(set.contains(1, 2));
    assert!(!set.contains(2, 1));
    set.remove(1, 2);
    assert!(!set.contains(1, 2));
    // removing an absent pair is a no-op
    set.remove(1, 2);
    assert!(!set.contains(1, 2));
}
