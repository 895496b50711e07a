use usbsas_core::table::{Entry, Table};

#[test]
fn a_new_table_is_empty() {
    let t: Table<u32> = Table::new();
    assert_eq!(t.len(), 0);
    assert_eq!(t.get(&"a".to_string()), None);
    assert_eq!(t.find(&"a".to_string()), None);
}

#[test]
fn binding_a_key_again_replaces_the_value() {
    let mut t: Table<u32> = Table::new();
    t.insert("a".to_string(), 1);
    t.insert("b".to_string(), 2);
    t.insert("a".to_string(), 3);
    assert_eq!(t.len(), 2);
    assert_eq!(t.get(&"a".to_string()), Some(&3));
    assert_eq!(t.get(&"b".to_string()), Some(&2));
    assert_eq!(t.get(&"c".to_string()), None);
    let i = t.find(&"b".to_string());
    assert_eq!(i, Some(1));
    assert_eq!(t.entry(1), &Entry { key: "b".to_string(), value: 2 });
}

#[test]
fn removing_hands_the_value_back_once() {
    let mut t: Table<u32> = Table::new();
    t.insert("a".to_string(), 1);
    t.insert("b".to_string(), 2);
    t.insert("c".to_string(), 3);
    assert_eq!(t.remove(&"b".to_string()), Some(2));
    assert_eq!(t.remove(&"b".to_string()), None);
    assert_eq!(t.len(), 2);
    assert_eq!(t.get(&"a".to_string()), Some(&1));
    assert_eq!(t.get(&"c".to_string()), Some(&3));
    assert_eq!(
        t.into_entries(),
        vec![Entry { key: "a".to_string(), value: 1 }, Entry { key: "c".to_string(), value: 3 }]
    );
}

#[test]
fn a_value_is_changed_in_place() {
    let mut t: Table<u32> = Table::new();
    t.insert("a".to_string(), 1);
    t.insert("b".to_string(), 2);
    *t.value_mut(0) = 10;
    assert_eq!(t.get(&"a".to_string()), Some(&10));
    assert_eq!(t.get(&"b".to_string()), Some(&2));
}
