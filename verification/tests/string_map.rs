use yalich::string_map::StringMap;

#[test]
fn string_map_starts_empty() {
    let map: StringMap<u32> = StringMap::new();
    assert_eq!(map.len(), 0);
    assert_eq!(map.get("a"), None);
    assert!(!map.contains_key("a"));
}

#[test]
fn string_map_holds_what_was_put() {
    let mut map = StringMap::new();
    assert_eq!(map.insert("a".to_owned(), 1), None);
    assert_eq!(map.insert("b".to_owned(), 2), None);
    assert_eq!(map.len(), 2);
    assert_eq!(map.get("a"), Some(&1));
    assert_eq!(map.get("b"), Some(&2));
    assert_eq!(map.get("c"), None);
    assert!(map.contains_key("b"));
    assert!(!map.contains_key("B"));
}

#[test]
fn string_map_replaces_the_value_of_a_key_it_holds() {
    let mut map = StringMap::new();
    map.insert("a".to_owned(), 1);
    map.insert("b".to_owned(), 2);
    map.insert("c".to_owned(), 3);
    assert_eq!(map.insert("a".to_owned(), 4), Some(1));
    assert_eq!(map.len(), 3);
    assert_eq!(map.get("a"), Some(&4));
    assert_eq!(map.get("b"), Some(&2));
    assert_eq!(map.get("c"), Some(&3));
}

#[test]
fn string_map_keeps_the_order_of_insertion() {
    let mut map = StringMap::new();
    map.insert("b".to_owned(), 2);
    map.insert("a".to_owned(), 1);
    map.insert("c".to_owned(), 3);
    map.insert("a".to_owned(), 4);
    assert_eq!(map.entry(0), Some((&"b".to_owned(), &2)));
    assert_eq!(map.entry(1), Some((&"a".to_owned(), &4)));
    assert_eq!(map.entry(2), Some((&"c".to_owned(), &3)));
    assert_eq!(map.entry(3), None);
}
