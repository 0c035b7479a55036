use rds_cli::name_map::NameMap;

#[test]
fn name_map_insert_get_and_replace() {
    let mut map: NameMap<u32> = NameMap::new();
    assert!(map.is_empty());
    assert_eq!(map.len(), 0);
    assert_eq!(map.get("a"), None);
    assert!(!map.contains_key("a"));
    assert_eq!(map.position("a"), 0);

    assert_eq!(map.insert("a".to_string(), 1), None);
    assert_eq!(map.insert("b".to_string(), 2), None);
    assert_eq!(map.insert("a".to_string(), 3), Some(1));
    assert_eq!(map.len(), 2);
    assert!(!map.is_empty());
    assert_eq!(map.get("a"), Some(&3));
    assert_eq!(map.get("b"), Some(&2));
    assert_eq!(map.get("A"), None);
    assert_eq!(map.position("a"), 0);
    assert_eq!(map.position("b"), 1);
    assert_eq!(map.position("c"), 2);
    assert_eq!(map.name_at(0), "a");
    assert_eq!(*map.value_at(1), 2);

    assert_eq!(map.replace_at(1, 20), 2);
    assert_eq!(map.get("b"), Some(&20));
    assert_eq!(map.name_at(1), "b");
    assert_eq!(map.len(), 2);
}

#[test]
fn name_map_extend_puts_entries_in_order() {
    let mut base: NameMap<&str> = NameMap::new();
    base.insert("x".to_string(), "x1");
    base.insert("y".to_string(), "y1");
    let mut over: NameMap<&str> = NameMap::new();
    over.insert("z".to_string(), "z2");
    over.insert("x".to_string(), "x2");
    base.extend(over);
    assert_eq!(base.len(), 3);
    assert_eq!((base.name_at(0).as_str(), *base.value_at(0)), ("x", "x2"));
    assert_eq!((base.name_at(1).as_str(), *base.value_at(1)), ("y", "y1"));
    assert_eq!((base.name_at(2).as_str(), *base.value_at(2)), ("z", "z2"));
}
