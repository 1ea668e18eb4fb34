use papl::{Session, SqliteStore, StoreError};

fn s(text: &str) -> String {
    text.to_string()
}

fn three_stamped() -> SqliteStore {
    let store = SqliteStore::new_in_memory().unwrap();
    store.save(s("k1"), s("p1"), s("v1"), 100).unwrap();
    store.save(s("k2"), s("p2"), s("v2"), 150).unwrap();
    store.save(s("k3"), s("p3"), s("v3"), 200).unwrap();
    store
}

#[test]
fn test_sqlite_store() -> Result<(), StoreError> {
    let store = SqliteStore::new("/tmp/demo.db")?;
    store.save("key1".to_string(), "policy10".to_string(), "1.0".to_string(), 1)?;
    store.save("key2".to_string(), "policy20".to_string(), "2.0".to_string(), 2)?;
    store.save("key3".to_string(), "policy30".to_string(), "3.0".to_string(), 3)?;
    store.save("key3".to_string(), "policy30".to_string(), "3.0".to_string(), 3)?;

    assert_eq!(store.get("key1".to_string())?, "policy10".to_string());
    assert_eq!(store.get("key2".to_string())?, "policy20".to_string());

    let keys = store.all_keys_be(2);
    for key in keys.unwrap() {
        println!("key: {}", key);
    }

    let keys = store.all_keys_le(2);
    for key in keys.unwrap() {
        println!("key: {}", key);
    }

    Ok(())
}

#[test]
fn test_sqlite_pageable() -> Result<(), StoreError> {
    let store = SqliteStore::new("/tmp/demo.db")?;
    store.save("key1".to_string(), "policy10".to_string(), "1.0".to_string(), 1)?;
    store.save("key2".to_string(), "policy20".to_string(), "2.0".to_string(), 2)?;
    store.save("key3".to_string(), "policy30".to_string(), "3.0".to_string(), 3)?;

    assert_eq!(store.get("key1".to_string())?, "policy10".to_string());
    assert_eq!(store.get("key2".to_string())?, "policy20".to_string());

    let keys = store.all_keys_be_pageable(1, 2, 2);
    for key in keys.unwrap() {
        println!("key: {}", key);
    }

    Ok(())
}

#[test]
fn test_sqlite_store_delete() -> Result<(), StoreError> {
    let store = SqliteStore::new("/tmp/demo.db")?;
    let _ = store.delete("key1".to_string());
    Ok(())
}

#[test]
fn test_sqlite_store_close() -> Result<(), StoreError> {
    let store = SqliteStore::new("/tmp/demo.db")?;
    store.close().unwrap();
    Ok(())
}

#[test]
fn round_trip_returns_value_and_version() {
    let store = SqliteStore::new_in_memory().unwrap();
    assert_eq!(store.save(s("alpha"), s("permit(all);"), s("1.0"), -7).unwrap(), 1);
    assert_eq!(store.get(s("alpha")).unwrap(), "permit(all);");
    assert_eq!(store.version(s("alpha")).unwrap(), "1.0");
    assert_eq!(
        store.version_value(s("alpha")).unwrap(),
        (s("permit(all);"), s("1.0"))
    );
}

#[test]
fn round_trip_with_empty_strings() {
    let store = SqliteStore::new_in_memory().unwrap();
    store.save(s(""), s(""), s(""), i64::MIN).unwrap();
    assert_eq!(store.version_value(s("")).unwrap(), (s(""), s("")));
    assert_eq!(store.all_keys_le(i64::MIN).unwrap(), vec![s("")]);
}

#[test]
fn repeated_save_keeps_one_record() {
    let store = SqliteStore::new_in_memory().unwrap();
    for round in 0..5i64 {
        assert_eq!(store.save(s("same"), s("doc"), s("v"), round).unwrap(), 1);
    }
    store.save(s("other"), s("doc"), s("v"), 3).unwrap();
    assert_eq!(store.all_keys_be(i64::MIN).unwrap(), vec![s("other"), s("same")]);
}

#[test]
fn second_save_overwrites_all_fields() {
    let store = SqliteStore::new_in_memory().unwrap();
    store.save(s("k"), s("v1"), s("ver1"), 1).unwrap();
    store.save(s("k"), s("v2"), s("ver2"), 2).unwrap();
    assert_eq!(store.get(s("k")).unwrap(), "v2");
    assert_eq!(store.version(s("k")).unwrap(), "ver2");
    assert_eq!(store.all_keys_be(i64::MIN).unwrap(), vec![s("k")]);
    assert_eq!(store.all_keys_be(2).unwrap(), vec![s("k")]);
    assert!(store.all_keys_le(1).unwrap().is_empty());
}

#[test]
fn delete_of_absent_key_returns_zero() {
    let store = SqliteStore::new_in_memory().unwrap();
    assert_eq!(store.delete(s("missing")).unwrap(), 0);
    assert!(matches!(store.get(s("missing")), Err(StoreError::NotFound)));
}

#[test]
fn delete_removes_the_record() {
    let store = SqliteStore::new_in_memory().unwrap();
    store.save(s("k"), s("v"), s("1"), 10).unwrap();
    assert_eq!(store.delete(s("k")).unwrap(), 1);
    assert_eq!(store.delete(s("k")).unwrap(), 0);
    assert!(matches!(store.get(s("k")), Err(StoreError::NotFound)));
    assert!(matches!(store.version(s("k")), Err(StoreError::NotFound)));
    assert!(matches!(store.version_value(s("k")), Err(StoreError::NotFound)));
}

#[test]
fn lookups_of_unknown_key_are_not_found() {
    let store = three_stamped();
    assert!(matches!(store.get(s("k4")), Err(StoreError::NotFound)));
    assert!(matches!(store.version(s("K1")), Err(StoreError::NotFound)));
    assert!(matches!(store.version_value(s("k")), Err(StoreError::NotFound)));
}

#[test]
fn range_predicates_on_three_records() {
    let store = three_stamped();
    assert_eq!(store.all_keys_be(150).unwrap(), vec![s("k2"), s("k3")]);
    assert_eq!(store.all_keys_le(150).unwrap(), vec![s("k1"), s("k2")]);
    assert!(store.all_keys_be(201).unwrap().is_empty());
    assert!(store.all_keys_le(99).unwrap().is_empty());
}

#[test]
fn eviction_at_most_removes_older_records() {
    let store = three_stamped();
    assert_eq!(store.evict_le(150).unwrap(), 2);
    assert!(matches!(store.get(s("k1")), Err(StoreError::NotFound)));
    assert!(matches!(store.get(s("k2")), Err(StoreError::NotFound)));
    assert_eq!(store.get(s("k3")).unwrap(), "p3");
    assert_eq!(store.evict_le(150).unwrap(), 0);
}

#[test]
fn eviction_at_least_removes_newer_records() {
    let store = three_stamped();
    assert_eq!(store.evict_be(150).unwrap(), 2);
    assert_eq!(store.get(s("k1")).unwrap(), "p1");
    assert!(matches!(store.get(s("k3")), Err(StoreError::NotFound)));
    assert_eq!(store.all_keys_be(i64::MIN).unwrap(), vec![s("k1")]);
}

#[test]
fn eviction_of_empty_store_returns_zero() {
    let store = SqliteStore::new_in_memory().unwrap();
    assert_eq!(store.evict_be(i64::MIN).unwrap(), 0);
    assert_eq!(store.evict_le(i64::MAX).unwrap(), 0);
}

#[test]
fn page_of_size_zero_is_empty() {
    let store = three_stamped();
    assert!(store.all_keys_be_pageable(0, 1, 0).unwrap().is_empty());
    assert!(store.all_keys_be_pageable(0, 0, 0).unwrap().is_empty());
    assert!(store.all_keys_be_pageable(i64::MIN, 7, 0).unwrap().is_empty());
}

#[test]
fn pages_split_the_matching_keys() {
    let store = three_stamped();
    let first = store.all_keys_be_pageable(100, 1, 2).unwrap();
    let second = store.all_keys_be_pageable(100, 2, 2).unwrap();
    let third = store.all_keys_be_pageable(100, 3, 2).unwrap();
    assert_eq!(first, vec![s("k1"), s("k2")]);
    assert_eq!(second, vec![s("k3")]);
    assert!(third.is_empty());
    assert_eq!(store.all_keys_be_pageable(150, 1, 10).unwrap(), vec![s("k2"), s("k3")]);
    assert_eq!(store.all_keys_be_pageable(100, 2, 1).unwrap(), vec![s("k2")]);
}

#[test]
fn invalid_pages_are_refused() {
    let store = three_stamped();
    assert!(matches!(store.all_keys_be_pageable(0, 0, 2), Err(StoreError::InvalidPage)));
    assert!(matches!(store.all_keys_be_pageable(0, -3, 2), Err(StoreError::InvalidPage)));
    assert!(matches!(store.all_keys_be_pageable(0, 1, -1), Err(StoreError::InvalidPage)));
    assert!(matches!(
        store.all_keys_be_pageable(0, i64::MAX, 2),
        Err(StoreError::InvalidPage)
    ));
    assert!(store.all_keys_be_pageable(0, i64::MAX, 1).unwrap().is_empty());
}

#[test]
fn closed_store_refuses_every_operation() {
    let store = three_stamped();
    store.close().unwrap();
    assert!(matches!(store.save(s("k1"), s("x"), s("y"), 1), Err(StoreError::Closed)));
    assert!(matches!(store.get(s("k1")), Err(StoreError::Closed)));
    assert!(matches!(store.version(s("k1")), Err(StoreError::Closed)));
    assert!(matches!(store.version_value(s("k1")), Err(StoreError::Closed)));
    assert!(matches!(store.delete(s("k1")), Err(StoreError::Closed)));
    assert!(matches!(store.all_keys_be(0), Err(StoreError::Closed)));
    assert!(matches!(store.all_keys_le(0), Err(StoreError::Closed)));
    assert!(matches!(store.all_keys_be_pageable(0, 1, 0), Err(StoreError::Closed)));
    assert!(matches!(store.evict_be(0), Err(StoreError::Closed)));
    assert!(matches!(store.evict_le(0), Err(StoreError::Closed)));
    assert!(matches!(store.close(), Err(StoreError::Closed)));
}

#[test]
fn close_without_operations() {
    let store = SqliteStore::new_in_memory().unwrap();
    assert!(store.close().is_ok());
}

#[test]
fn file_store_keeps_records_across_opens() {
    let path = "/tmp/papl_reopen.db";
    let first = SqliteStore::new(path).unwrap();
    first.save(s("persisted"), s("doc"), s("7"), 42).unwrap();
    first.close().unwrap();
    let second = SqliteStore::new(path).unwrap();
    assert_eq!(second.version_value(s("persisted")).unwrap(), (s("doc"), s("7")));
    assert_eq!(second.delete(s("persisted")).unwrap(), 1);
    second.close().unwrap();
}

#[test]
fn competing_saves_leave_one_record() {
    let store = SqliteStore::new_in_memory().unwrap();
    let values: Vec<String> = (0..8).map(|i| format!("value-{}", i)).collect();
    for value in values.iter() {
        assert_eq!(store.save(s("race"), value.clone(), s("v"), 1).unwrap(), 1);
    }
    assert_eq!(store.all_keys_be(i64::MIN).unwrap(), vec![s("race")]);
    let winner = store.get(s("race")).unwrap();
    assert!(values.contains(&winner));
    assert_eq!(winner, "value-7");
}

#[test]
fn session_round_trip_and_close() {
    let mut session = Session::open_in_memory().unwrap();
    assert!(session.is_open());
    assert_eq!(session.save(s("a"), s("doc"), s("1"), 5).unwrap(), 1);
    assert_eq!(session.save(s("a"), s("doc2"), s("2"), 6).unwrap(), 1);
    assert_eq!(session.version_value(s("a")).unwrap(), (s("doc2"), s("2")));
    assert_eq!(session.all_keys_be(6).unwrap(), vec![s("a")]);
    assert_eq!(session.evict_be(6).unwrap(), 1);
    assert!(matches!(session.get(s("a")), Err(StoreError::NotFound)));
    session.close().unwrap();
    assert!(!session.is_open());
    assert!(matches!(session.get(s("a")), Err(StoreError::Closed)));
    assert!(matches!(session.close(), Err(StoreError::Closed)));
}

#[test]
fn inaccessible_location_is_a_backing_error() {
    assert!(matches!(
        SqliteStore::new("/nonexistent-papl-dir/sub/store.db"),
        Err(StoreError::Backing(_))
    ));
    assert!(matches!(
        Session::open("/nonexistent-papl-dir/sub/store.db"),
        Err(StoreError::Backing(_))
    ));
}

#[test]
fn session_on_file_lists_pages_and_evicts() {
    let mut session = Session::open("/tmp/papl_session.db").unwrap();
    session.evict_be(i64::MIN).unwrap();
    session.save(s("x"), s("dx"), s("1"), 10).unwrap();
    session.save(s("y"), s("dy"), s("1"), 20).unwrap();
    session.save(s("z"), s("dz"), s("1"), 30).unwrap();
    assert_eq!(session.all_keys_le(20).unwrap(), vec![s("x"), s("y")]);
    assert_eq!(session.all_keys_be_pageable(20, 1, 5).unwrap().len(), 2);
    assert_eq!(session.all_keys_be_pageable(20, 2, 1).unwrap().len(), 1);
    assert!(session.all_keys_be_pageable(20, 3, 1).unwrap().is_empty());
    assert!(matches!(session.all_keys_be_pageable(20, 0, 1), Err(StoreError::InvalidPage)));
    assert_eq!(session.delete(s("y")).unwrap(), 1);
    assert_eq!(session.evict_le(10).unwrap(), 1);
    assert_eq!(session.version(s("z")).unwrap(), "1");
    assert_eq!(session.evict_be(i64::MIN).unwrap(), 1);
    session.close().unwrap();
    assert!(matches!(session.save(s("x"), s("d"), s("1"), 1), Err(StoreError::Closed)));
    assert!(matches!(session.delete(s("x")), Err(StoreError::Closed)));
}

#[test]
fn listings_follow_code_point_order() {
    let store = SqliteStore::new_in_memory().unwrap();
    for key in ["z", "\u{e9}", "a", "\u{1f600}", "\u{fffd}", "ab", ""] {
        store.save(s(key), s("doc"), s("1"), 5).unwrap();
    }
    let expected = vec![s(""), s("a"), s("ab"), s("z"), s("\u{e9}"), s("\u{fffd}"), s("\u{1f600}")];
    assert_eq!(store.all_keys_be(5).unwrap(), expected);
    assert_eq!(store.all_keys_le(5).unwrap(), expected);
    assert_eq!(store.all_keys_be_pageable(5, 2, 3).unwrap(), vec![s("z"), s("\u{e9}"), s("\u{fffd}")]);
    assert_eq!(store.all_keys_be_pageable(5, 3, 3).unwrap(), vec![s("\u{1f600}")]);
}

#[test]
fn open_file_is_held_by_one_store() {
    let path = "/tmp/papl_exclusive.db";
    let first = SqliteStore::new(path).unwrap();
    first.save(s("held"), s("doc"), s("1"), 1).unwrap();
    assert!(matches!(SqliteStore::new(path), Err(StoreError::Backing(_))));
    first.close().unwrap();
    let second = SqliteStore::new(path).unwrap();
    assert_eq!(second.get(s("held")).unwrap(), "doc");
    second.close().unwrap();
}
