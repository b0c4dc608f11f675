use loudness::cache::ResultCache;

fn key(s: &str) -> String {
    s.to_string()
}

#[test]
fn new_cache_is_empty() {
    let c: ResultCache<(f64, f64)> = ResultCache::new();
    assert_eq!(c.len(), 0);
    assert!(!c.contains(&key("a")));
    assert!(c.get(&key("a")).is_none());
    assert!(c.entries().is_empty());
}

#[test]
fn first_insert_applies_and_second_does_not() {
    let mut c = ResultCache::new();
    assert!(c.try_insert(key("a"), (-14.0, 0.5)));
    assert!(!c.try_insert(key("a"), (-20.0, 0.25)));
    assert_eq!(c.len(), 1);
    assert_eq!(c.get(&key("a")), Some(&(-14.0, 0.5)));
}

#[test]
fn distinct_keys_are_all_kept() {
    let mut c = ResultCache::new();
    assert!(c.try_insert(key("a"), 1u64));
    assert!(c.try_insert(key("b"), 2u64));
    assert!(c.try_insert(key("c"), 3u64));
    assert_eq!(c.len(), 3);
    assert_eq!(c.get(&key("b")), Some(&2));
    assert!(c.contains(&key("c")));
    assert!(!c.contains(&key("d")));
}

#[test]
fn from_entries_keeps_the_first_value_of_a_key() {
    let c = ResultCache::from_entries(vec![(key("a"), 1u64), (key("b"), 2), (key("a"), 3)]);
    assert_eq!(c.len(), 2);
    assert_eq!(c.get(&key("a")), Some(&1));
    assert_eq!(c.get(&key("b")), Some(&2));
}

#[test]
fn snapshot_entries_reload_to_the_same_cache() {
    let mut c = ResultCache::new();
    c.try_insert(key("x"), (-9.5, 1.25));
    c.try_insert(key("y"), (-23.0, 0.125));
    let reloaded = ResultCache::from_entries(c.entries().to_vec());
    assert_eq!(reloaded.len(), 2);
    assert_eq!(reloaded.get(&key("x")), Some(&(-9.5, 1.25)));
    assert_eq!(reloaded.get(&key("y")), Some(&(-23.0, 0.125)));
    assert_eq!(reloaded.entries(), c.entries());
}

#[test]
fn empty_snapshot_reloads_empty() {
    let c: ResultCache<u64> = ResultCache::new();
    let reloaded = ResultCache::from_entries(c.entries().to_vec());
    assert_eq!(reloaded.len(), 0);
}
