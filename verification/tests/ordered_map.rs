use secretstore_primitives::hash::FixedBytes;
use secretstore_primitives::ordered_map::OrderedMap;

fn map_key(first: u8, last: u8) -> FixedBytes<4> {
    FixedBytes([first, 0, 0, last])
}

#[test]
fn new_map_is_empty() {
    let map: OrderedMap<4, u32> = OrderedMap::new();
    assert_eq!(map.len(), 0);
    assert!(map.is_empty());
    assert!(!map.contains_key(&map_key(0, 0)));
    assert_eq!(map.get(&map_key(0, 0)), None);
}

#[test]
fn insert_adds_and_replaces() {
    let mut map: OrderedMap<4, u32> = OrderedMap::new();
    assert_eq!(map.insert(map_key(2, 0), 20), None);
    assert_eq!(map.insert(map_key(1, 0), 10), None);
    assert_eq!(map.insert(map_key(3, 0), 30), None);
    assert_eq!(map.len(), 3);
    assert_eq!(map.insert(map_key(2, 0), 21), Some(20));
    assert_eq!(map.len(), 3);
    assert_eq!(map.get(&map_key(1, 0)), Some(&10));
    assert_eq!(map.get(&map_key(2, 0)), Some(&21));
    assert_eq!(map.get(&map_key(3, 0)), Some(&30));
    assert_eq!(map.get(&map_key(4, 0)), None);
    assert!(!map.is_empty());
}

#[test]
fn entries_are_walked_in_key_order() {
    let mut map: OrderedMap<4, u32> = OrderedMap::new();
    for (first, last, value) in [(9u8, 0u8, 1u32), (0, 9, 2), (0, 1, 3), (5, 5, 4), (0, 0, 5)] {
        map.insert(map_key(first, last), value);
    }
    let keys: Vec<FixedBytes<4>> = (0..map.len()).map(|i| map.key_at(i)).collect();
    assert_eq!(
        keys,
        vec![map_key(0, 0), map_key(0, 1), map_key(0, 9), map_key(5, 5), map_key(9, 0)]
    );
    let values: Vec<u32> = (0..map.len()).map(|i| *map.value_at(i)).collect();
    assert_eq!(values, vec![5, 3, 2, 4, 1]);
}

#[test]
fn maps_with_the_same_entries_are_equal() {
    let mut one: OrderedMap<4, u32> = OrderedMap::new();
    one.insert(map_key(1, 0), 1);
    one.insert(map_key(2, 0), 2);
    let mut other: OrderedMap<4, u32> = OrderedMap::new();
    other.insert(map_key(2, 0), 2);
    other.insert(map_key(1, 0), 1);
    assert_eq!(one, other);
    other.insert(map_key(1, 0), 7);
    assert_ne!(one, other);
}

#[test]
fn remove_takes_the_entry_out() {
    let mut map: OrderedMap<4, u32> = OrderedMap::new();
    map.insert(map_key(1, 0), 10);
    map.insert(map_key(2, 0), 20);
    map.insert(map_key(3, 0), 30);
    assert_eq!(map.remove(&map_key(2, 0)), Some(20));
    assert_eq!(map.remove(&map_key(2, 0)), None);
    assert_eq!(map.len(), 2);
    assert!(map.contains_key(&map_key(1, 0)));
    assert!(!map.contains_key(&map_key(2, 0)));
    assert!(map.contains_key(&map_key(3, 0)));
    assert_eq!(map.key_at(0), map_key(1, 0));
    assert_eq!(map.key_at(1), map_key(3, 0));
}

#[test]
fn keys_within_is_the_subset_test() {
    let mut small: OrderedMap<4, ()> = OrderedMap::new();
    let mut large: OrderedMap<4, u32> = OrderedMap::new();
    assert!(small.keys_within(&large));
    small.insert(map_key(1, 0), ());
    assert!(!small.keys_within(&large));
    large.insert(map_key(1, 0), 1);
    large.insert(map_key(2, 0), 2);
    assert!(small.keys_within(&large));
    small.insert(map_key(3, 0), ());
    assert!(!small.keys_within(&large));
    assert!(!large.keys_within(&small));
}

#[test]
fn clone_and_default_keep_the_contents() {
    let mut map: OrderedMap<4, u32> = OrderedMap::new();
    map.insert(map_key(7, 7), 77);
    map.insert(map_key(1, 1), 11);
    let copy = map.clone();
    assert_eq!(copy, map);
    assert_eq!(copy.get(&map_key(7, 7)), Some(&77));
    let empty: OrderedMap<4, u32> = OrderedMap::default();
    assert!(empty.is_empty());
}
