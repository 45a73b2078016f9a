use crstop::cache::ApiIdCache;

#[test]
fn remembered_ids_are_found_again() {
    let mut cache = ApiIdCache::new();
    assert_eq!(cache.lookup("http://relay", "key-a"), None);
    cache.remember("http://relay", "key-a", "id-1");
    cache.remember("http://relay", "key-b", "id-2");
    assert_eq!(cache.lookup("http://relay", "key-a").as_deref(), Some("id-1"));
    assert_eq!(cache.lookup("http://relay", "key-b").as_deref(), Some("id-2"));
    cache.remember("http://relay", "key-a", "id-3");
    assert_eq!(cache.lookup("http://relay", "key-a").as_deref(), Some("id-3"));
    assert_eq!(cache.entries().len(), 2);
    assert_eq!(cache.lookup("http://other", "key-a"), None);
}

#[test]
fn later_pairs_win_when_loading() {
    let cache = ApiIdCache::from_entries(vec![
        ("k".to_string(), "1".to_string()),
        ("j".to_string(), "2".to_string()),
        ("k".to_string(), "3".to_string()),
    ]);
    assert_eq!(cache.get("k").as_deref(), Some("3"));
    assert_eq!(cache.get("j").as_deref(), Some("2"));
    assert_eq!(cache.get("x"), None);
    assert_eq!(cache.entries().len(), 2);
}
