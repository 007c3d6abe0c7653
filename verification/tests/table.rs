use tatic_server::table::Table;

#[test]
fn empty_table_holds_nothing() {
    let table: Table<u32> = Table::new();
    assert_eq!(table.len(), 0);
    assert!(!table.contains_key("a"));
    assert!(table.get("a").is_none());
}

#[test]
fn insert_then_get() {
    let mut table: Table<u32> = Table::new();
    table.insert("one".to_string(), 1);
    table.insert("two".to_string(), 2);
    assert_eq!(table.len(), 2);
    assert_eq!(table.get("one"), Some(&1));
    assert_eq!(table.get("two"), Some(&2));
    assert_eq!(table.get("three"), None);
    assert!(table.contains_key("two"));
    assert!(!table.contains_key("Two"));
}

#[test]
fn insert_on_known_key_replaces_in_place() {
    let mut table: Table<u32> = Table::new();
    table.insert("one".to_string(), 1);
    table.insert("two".to_string(), 2);
    table.insert("one".to_string(), 11);
    assert_eq!(table.len(), 2);
    assert_eq!(table.get("one"), Some(&11));
    assert_eq!(table.key_at(0), "one");
    assert_eq!(table.key_at(1), "two");
    assert_eq!(*table.value_at(0), 11);
    assert_eq!(*table.value_at(1), 2);
}

#[test]
fn exchange_trades_values_for_known_keys_only() {
    let mut table: Table<Vec<u8>> = Table::new();
    table.insert("k".to_string(), vec![1, 2]);

    let mut hand = vec![9];
    assert!(table.exchange("k", &mut hand));
    assert_eq!(hand, vec![1, 2]);
    assert_eq!(table.get("k"), Some(&vec![9]));

    let mut other = vec![7];
    assert!(!table.exchange("missing", &mut other));
    assert_eq!(other, vec![7]);
    assert_eq!(table.len(), 1);
    assert_eq!(table.get("k"), Some(&vec![9]));
}

#[test]
fn keys_come_in_arrival_order() {
    let mut table: Table<usize> = Table::new();
    let keys = ["delta", "alpha", "charlie", "bravo"];
    for (n, key) in keys.iter().enumerate() {
        table.insert(key.to_string(), n);
    }
    assert_eq!(table.len(), 4);
    for (n, key) in keys.iter().enumerate() {
        assert_eq!(table.key_at(n), key);
        assert_eq!(*table.value_at(n), n);
        assert_eq!(table.get(key), Some(&n));
    }
}
