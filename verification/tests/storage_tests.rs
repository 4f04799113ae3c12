use kirin::{DiskStorage, MemoryStorage, Row, Storage, StorageError, Value};

fn row(n: i64) -> Row {
    Row { values: vec![Value::Int(n)] }
}

#[test]
fn identifiers_count_up_from_zero() {
    let mut store = MemoryStorage::new();
    assert_eq!(store.insert(row(10)), 0);
    assert_eq!(store.insert(row(11)), 1);
    assert_eq!(store.insert(row(12)), 2);
}

#[test]
fn identifiers_are_unique_and_give_their_rows_back() {
    let mut store = MemoryStorage::new();
    let mut ids = Vec::new();
    for n in 0..50 {
        ids.push(store.insert(row(n)));
    }
    for (i, a) in ids.iter().enumerate() {
        for b in ids.iter().skip(i + 1) {
            assert_ne!(a, b);
        }
        assert_eq!(store.get(*a), Some(&row(i as i64)));
    }
}

#[test]
fn a_stored_row_comes_back_as_it_went_in() {
    let mut store = MemoryStorage::new();
    let stored = Row {
        values: vec![Value::Int(42), Value::Text("Alice".into()), Value::Bool(false)],
    };
    let id = store.insert(stored.clone());
    assert_eq!(store.get(id), Some(&stored));
}

#[test]
fn get_of_an_unknown_identifier_is_none() {
    let mut store = MemoryStorage::new();
    assert_eq!(store.get(0), None);
    store.insert(row(1));
    assert_eq!(store.get(1), None);
    assert_eq!(store.get(u64::MAX), None);
}

#[test]
fn delete_says_whether_a_row_was_removed() {
    let mut store = MemoryStorage::new();
    assert!(!store.delete(0));
    let id = store.insert(row(1));
    assert!(store.delete(id));
    assert_eq!(store.get(id), None);
    assert!(!store.delete(id));
    assert_eq!(store.iter().len(), 0);
}

#[test]
fn delete_leaves_the_other_rows() {
    let mut store = MemoryStorage::new();
    let a = store.insert(row(1));
    let b = store.insert(row(2));
    assert!(store.delete(a));
    assert_eq!(store.get(b), Some(&row(2)));
    assert_eq!(store.iter().len(), 1);
}

#[test]
fn identifiers_are_not_reused_after_delete() {
    let mut store = MemoryStorage::new();
    let a = store.insert(row(1));
    assert!(store.delete(a));
    let b = store.insert(row(2));
    assert_ne!(a, b);
    assert_eq!(b, 1);
    assert_eq!(store.get(a), None);
}

#[test]
fn iter_gives_each_row_once() {
    let mut store = MemoryStorage::new();
    for n in 0..10 {
        store.insert(row(n));
    }
    store.delete(3);
    let mut seen: Vec<i64> = store
        .iter()
        .into_iter()
        .map(|r| match r.values[0] {
            Value::Int(n) => n,
            _ => panic!("an integer was stored"),
        })
        .collect();
    seen.sort();
    assert_eq!(seen, vec![0, 1, 2, 4, 5, 6, 7, 8, 9]);
}

#[test]
fn a_new_storage_has_room() {
    let store = MemoryStorage::new();
    assert!(store.has_room());
}

#[test]
fn disk_storage_cannot_be_opened() {
    assert!(matches!(DiskStorage::open("rows.db"), Err(StorageError::Unimplemented)));
    assert!(matches!(DiskStorage::open(""), Err(StorageError::Unimplemented)));
}
