use tree_walk_rs::table::Table;

#[test]
fn a_table_maps_names_to_values() {
    let mut table: Table<u32> = Table::new();
    assert!(table.entries.is_empty());
    assert_eq!(table.get("a"), None);
    assert!(!table.contains_key("a"));
    assert_eq!(table.position("a"), None);
    assert!(!table.insert("a".to_string(), 1));
    assert!(!table.insert("b".to_string(), 2));
    assert_eq!(table.get("a"), Some(&1));
    assert_eq!(table.get("b"), Some(&2));
    assert_eq!(table.get("c"), None);
    assert_eq!(table.position("b"), Some(1));
    assert!(table.contains_key("b"));
}

#[test]
fn a_name_has_one_value() {
    let mut table: Table<u32> = Table::new();
    table.insert("a".to_string(), 1);
    table.insert("b".to_string(), 2);
    assert!(table.insert("a".to_string(), 3));
    assert_eq!(table.get("a"), Some(&3));
    assert_eq!(table.get("b"), Some(&2));
    assert_eq!(table.entries.len(), 2);
    assert!(!table.insert(String::new(), 4));
    assert_eq!(table.get(""), Some(&4));
    assert_eq!(table.entries.len(), 3);
}

#[test]
fn the_first_entry_for_a_name_counts() {
    let table = Table { entries: vec![("a".to_string(), 1), ("b".to_string(), 2), ("a".to_string(), 3)] };
    assert_eq!(table.get("a"), Some(&1));
    assert_eq!(table.position("a"), Some(0));
    let mut table = table;
    assert!(table.insert("a".to_string(), 9));
    assert_eq!(table.entries[0].1, 9);
    assert_eq!(table.entries[2].1, 3);
    assert_eq!(table.get("a"), Some(&9));
}
