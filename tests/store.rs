use krator::key::ObjectKey;
use krator::store::{NotFound, ObjectCache, Store};

fn key(name: &str) -> ObjectKey {
    ObjectKey::new(Some("default".to_string()), name.to_string())
}

#[test]
fn absent_key_is_not_found() {
    let s: Store<u32> = Store::new();
    assert_eq!(s.get("Widget", &key("w1")), Err(NotFound));
    let c: ObjectCache<u32> = ObjectCache::new();
    assert_eq!(c.get(&key("w1")), Err(NotFound));
}

#[test]
fn last_writer_wins() {
    let mut s = Store::new();
    s.apply("Widget", &key("w1"), 1u32);
    s.apply("Widget", &key("w1"), 2u32);
    assert_eq!(s.get("Widget", &key("w1")), Ok(&2));
}

#[test]
fn kinds_are_separate() {
    let mut s = Store::new();
    s.apply("Widget", &key("w1"), 1u32);
    s.apply("Gadget", &key("w1"), 7u32);
    assert_eq!(s.get("Widget", &key("w1")), Ok(&1));
    assert_eq!(s.get("Gadget", &key("w1")), Ok(&7));
    assert_eq!(s.get("Gizmo", &key("w1")), Err(NotFound));
}

#[test]
fn removed_key_is_not_found() {
    let mut s = Store::new();
    s.apply("Widget", &key("w1"), 1u32);
    s.apply("Widget", &key("w2"), 2u32);
    s.remove("Widget", &key("w1"));
    assert_eq!(s.get("Widget", &key("w1")), Err(NotFound));
    assert_eq!(s.get("Widget", &key("w2")), Ok(&2));
    s.remove("Gadget", &key("w2"));
    assert_eq!(s.get("Widget", &key("w2")), Ok(&2));
}

#[test]
fn cache_apply_and_remove() {
    let mut c = ObjectCache::new();
    c.apply(&key("a"), "x");
    c.apply(&ObjectKey::new(None, "a".to_string()), "y");
    assert_eq!(c.get(&key("a")), Ok(&"x"));
    assert_eq!(c.get(&ObjectKey::new(None, "a".to_string())), Ok(&"y"));
    c.remove(&key("a"));
    assert_eq!(c.get(&key("a")), Err(NotFound));
}
