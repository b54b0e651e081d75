use ardeck::settings::cache::Cache;

fn s(text: &str) -> String {
    text.to_string()
}

#[test]
fn empty_cache_knows_nothing() {
    let cache = Cache::new();
    assert!(cache.get(&s("a.json")).is_none());
    assert!(cache.get_data(&s("a.json")).is_none());
    assert!(!cache.is_dirty(&s("a.json")));
    assert_eq!(cache.position(&s("a.json")), None);
}

#[test]
fn add_then_get() {
    let mut cache = Cache::new();
    cache.add(s("a.json"), s("{}"), false);
    cache.add(s("b.json"), s("[]"), true);
    let entry = cache.get(&s("b.json")).unwrap();
    assert_eq!((entry.path, entry.dirty, entry.data), (s("b.json"), true, s("[]")));
    assert_eq!(cache.get_data(&s("a.json")), Some(s("{}")));
    assert_eq!(cache.position(&s("b.json")), Some(1));
    assert!(!cache.is_dirty(&s("a.json")));
    assert!(cache.is_dirty(&s("b.json")));
}

#[test]
fn lookups_go_to_the_first_entry_of_a_path() {
    let mut cache = Cache::new();
    cache.add(s("a"), s("old"), false);
    cache.add(s("a"), s("new"), true);
    assert_eq!(cache.get_data(&s("a")), Some(s("old")));
    assert_eq!(cache.position(&s("a")), Some(0));
    // Any dirty entry of the path counts.
    assert!(cache.is_dirty(&s("a")));
}

#[test]
fn set_dirty_and_mark_dirty_touch_the_first_entry_only() {
    let mut cache = Cache::new();
    cache.add(s("a"), s("1"), false);
    cache.add(s("b"), s("2"), false);
    cache.add(s("a"), s("3"), false);
    cache.mark_dirty(&s("a"));
    assert!(cache.is_dirty(&s("a")));
    assert!(!cache.is_dirty(&s("b")));
    cache.set_dirty(&s("a"), false);
    assert!(!cache.is_dirty(&s("a")));
    assert_eq!(cache.get_data(&s("a")), Some(s("1")));
    cache.set_dirty(&s("missing"), true);
    assert!(!cache.is_dirty(&s("missing")));
}

#[test]
fn update_data_replaces_text_and_clears_the_mark() {
    let mut cache = Cache::new();
    cache.add(s("a"), s("1"), true);
    cache.add(s("b"), s("2"), true);
    cache.update_data(&s("a"), s("fresh"));
    let entry = cache.get(&s("a")).unwrap();
    assert_eq!((entry.dirty, entry.data), (false, s("fresh")));
    let other = cache.get(&s("b")).unwrap();
    assert_eq!((other.dirty, other.data), (true, s("2")));
    cache.update_data(&s("missing"), s("x"));
    assert!(cache.get(&s("missing")).is_none());
}

#[test]
fn remove_drops_every_entry_of_the_path() {
    let mut cache = Cache::new();
    cache.add(s("a"), s("1"), false);
    cache.add(s("b"), s("2"), false);
    cache.add(s("a"), s("3"), false);
    cache.add(s("c"), s("4"), false);
    cache.remove(&s("a"));
    assert!(cache.get(&s("a")).is_none());
    assert_eq!(cache.position(&s("b")), Some(0));
    assert_eq!(cache.position(&s("c")), Some(1));
    cache.remove(&s("missing"));
    assert_eq!(cache.get_data(&s("c")), Some(s("4")));
}
